//! Loop device data: the kernel's `loop_info64` record and the conversions
//! between paths and the fixed size, NUL terminated buffers it holds.
use vstd::prelude::*;

use crate::common::{Error, ErrorKind};
use vstd::string::StringSliceAdditionalSpecFns;
use crate::text::{decimal, hex2, push_chars, push_str, string_from_chars, u64_to_decimal, u64_to_hex2};
use crate::common::{lossy_utf8, utf8_lossy};

verus! {

pub const LO_NAME_SIZE: usize = 64;
pub const LO_KEY_SIZE: usize = 32;

/// The kernel's `struct loop_info64`.
#[derive(Debug)]
pub struct LoopInfo64 {
    pub lo_device: u64,
    pub lo_inode: u64,
    pub lo_rdevice: u64,
    pub lo_offset: u64,
    pub lo_sizelimit: u64,
    pub lo_number: u32,
    pub lo_encrypt_type: u32,
    pub lo_encrypt_key_size: u32,
    pub lo_flags: u32,
    pub lo_file_name: [u8; LO_NAME_SIZE],
    pub lo_crypt_name: [u8; LO_NAME_SIZE],
    pub lo_encrypt_key: [u8; LO_KEY_SIZE],
    pub lo_init: [u64; 2],
}

/// Index of the first NUL byte, or the length where there is none.
pub open spec fn nul_index(s: Seq<u8>) -> nat
    decreases s.len(),
{
    if s.len() == 0 || s[0] == 0 {
        0
    } else {
        1 + nul_index(s.drop_first())
    }
}

pub proof fn lemma_nul_index(s: Seq<u8>)
    ensures
        nul_index(s) <= s.len(),
        forall|i: int| 0 <= i < nul_index(s) ==> #[trigger] s[i] != 0,
        nul_index(s) < s.len() ==> s[nul_index(s) as int] == 0,
    decreases s.len(),
{
    if s.len() > 0 && s[0] != 0 {
        lemma_nul_index(s.drop_first());
        assert forall|i: int| 0 <= i < nul_index(s) implies #[trigger] s[i] != 0 by {
            if i > 0 {
                assert(s[i] == s.drop_first()[i - 1]);
            }
        }
    }
}

pub proof fn lemma_nul_index_unique(s: Seq<u8>, k: int)
    requires
        0 <= k <= s.len(),
        forall|i: int| 0 <= i < k ==> #[trigger] s[i] != 0,
        k < s.len() ==> s[k] == 0,
    ensures
        nul_index(s) == k,
    decreases s.len(),
{
    if k > 0 {
        assert(s[0] != 0);
        assert forall|i: int| 0 <= i < k - 1 implies #[trigger] s.drop_first()[i] != 0 by {
            assert(s[i + 1] != 0);
        }
        lemma_nul_index_unique(s.drop_first(), k - 1);
    }
}

pub fn nul_index_exec(s: &[u8]) -> (k: usize)
    ensures
        k == nul_index(s@),
{
    let mut k: usize = 0;
    while k < s.len() && s[k] != 0
        invariant
            k <= s@.len(),
            forall|i: int| 0 <= i < k ==> #[trigger] s@[i] != 0,
        decreases s@.len() - k,
    {
        k = k + 1;
    }
    proof {
        lemma_nul_index_unique(s@, k as int);
    }
    k
}

/// The buffer after writing `bytes` and a terminating NUL at its start.
pub open spec fn cbuffer_written(old: Seq<u8>, bytes: Seq<u8>) -> Seq<u8> {
    bytes + seq![0u8] + old.skip(bytes.len() as int + 1)
}

/// Write the path, NUL terminated, to the start of `buffer`. An `Upstream`
/// error where the path holds a NUL byte, an `InvParam` error where it does
/// not fit; the buffer is then unchanged.
pub fn path_to_cbuffer(path: &str, buffer: &mut [u8]) -> (r: Result<(), Error>)
    ensures
        nul_index(path.spec_bytes()) < path.spec_bytes().len() ==> (r matches Err(e) && e.kind
            == ErrorKind::Upstream && final(buffer)@ == old(buffer)@),
        nul_index(path.spec_bytes()) == path.spec_bytes().len() && path.spec_bytes().len() + 1
            > old(buffer)@.len() ==> (r matches Err(e) && e.kind == ErrorKind::InvParam
            && final(buffer)@ == old(buffer)@),
        nul_index(path.spec_bytes()) == path.spec_bytes().len() && path.spec_bytes().len() + 1
            <= old(buffer)@.len() ==> (r is Ok && final(buffer)@ == cbuffer_written(
            old(buffer)@,
            path.spec_bytes(),
        )),
{
    let src = path.as_bytes();
    let k = nul_index_exec(src);
    proof {
        lemma_nul_index(src@);
    }
    if k < src.len() {
        return Err(Error::with_context(ErrorKind::Upstream, "Failed to convert path to CString"));
    }
    if src.len() >= buffer.len() {
        return Err(
            Error::with_context(ErrorKind::InvParam, "path_to_cbuffer: insufficient target buffer size"),
        );
    }
    let ghost old_buf = buffer@;
    let mut i: usize = 0;
    while i < src.len()
        invariant
            i <= src@.len() < buffer@.len(),
            buffer@.len() == old_buf.len(),
            forall|j: int| 0 <= j < i ==> buffer@[j] == src@[j],
            forall|j: int| i <= j < buffer@.len() ==> buffer@[j] == old_buf[j],
        decreases src@.len() - i,
    {
        buffer[i] = src[i];
        i = i + 1;
    }
    buffer[i] = 0;
    proof {
        assert(buffer@ =~= cbuffer_written(old_buf, src@));
    }
    Ok(())
}

/// The bytes of a NUL terminated buffer before its first NUL (all of them
/// where there is none): the path it holds.
pub fn cbuffer_to_pathbuf(buffer: &[u8]) -> (r: Vec<u8>)
    ensures
        r@ == buffer@.take(nul_index(buffer@) as int),
{
    let k = nul_index_exec(buffer);
    proof {
        lemma_nul_index(buffer@);
    }
    let mut r: Vec<u8> = Vec::new();
    let mut i: usize = 0;
    while i < k
        invariant
            i <= k <= buffer@.len(),
            r@ =~= buffer@.take(i as int),
        decreases k - i,
    {
        r.push(buffer[i]);
        i = i + 1;
    }
    r
}

/// What a path written to a buffer reads back as is the path.
pub proof fn law_cbuffer_roundtrip(old: Seq<u8>, bytes: Seq<u8>)
    requires
        nul_index(bytes) == bytes.len(),
        bytes.len() + 1 <= old.len(),
    ensures
        cbuffer_written(old, bytes).take(nul_index(cbuffer_written(old, bytes)) as int) == bytes,
{
    let w = cbuffer_written(old, bytes);
    lemma_nul_index(bytes);
    assert forall|i: int| 0 <= i < bytes.len() implies #[trigger] w[i] != 0 by {
        assert(w[i] == bytes[i]);
    }
    assert(w[bytes.len() as int] == 0);
    lemma_nul_index_unique(w, bytes.len() as int);
    assert(w.take(bytes.len() as int) =~= bytes);
}

/// Whether the buffer holds a NUL, that is a valid C string.
pub fn check_str_buffer(buffer: &[u8]) -> (r: bool)
    ensures
        r == (nul_index(buffer@) < buffer@.len()),
{
    let k = nul_index_exec(buffer);
    k < buffer.len()
}

/// `format!("{:02x}", i)` for each `i < n`, concatenated.
pub open spec fn index_hex(n: nat) -> Seq<char>
    decreases n,
{
    if n == 0 {
        seq![]
    } else {
        index_hex((n - 1) as nat) + hex2((n - 1) as nat)
    }
}

/// The text that stands for an encryption key of `key.len()` bytes, cut to
/// `max_len` where that is given: the positions `0, 1, ...`, each written as
/// two or more hexadecimal digits.
pub fn key_to_string(key: &[u8], max_len: Option<usize>) -> (r: String)
    ensures
        r@ == index_hex(
            match max_len {
                Some(m) => if m < key@.len() {
                    m as nat
                } else {
                    key@.len()
                },
                None => key@.len(),
            },
        ),
{
    let max_len = if let Some(max_len) = max_len {
        if max_len < key.len() {
            max_len
        } else {
            key.len()
        }
    } else {
        key.len()
    };
    let mut res: Vec<char> = Vec::new();
    let mut val: usize = 0;
    while val < max_len
        invariant
            val <= max_len,
            res@ == index_hex(val as nat),
        decreases max_len - val,
    {
        let h = u64_to_hex2(val as u64);
        push_chars(&mut res, h.as_slice());
        val = val + 1;
    }
    string_from_chars(res.as_slice())
}

// ---------------------------------------------------------------------------
// The state of a loop device
// ---------------------------------------------------------------------------

/// Indexes searched for a free loop device where there is no control device.
pub const MAX_LOOP: u32 = 1024;
/// The error numbers the loop ioctls are told apart by.
pub const EAGAIN: i32 = 11;
pub const ENXIO: i32 = 6;

impl LoopInfo64 {
    /// A record with every field zero.
    pub fn zeroed() -> (r: LoopInfo64)
        ensures
            r.lo_offset == 0,
            r.lo_sizelimit == 0,
            r.lo_file_name@ == Seq::new(64, |i: int| 0u8),
    {
        let r = LoopInfo64 {
            lo_device: 0,
            lo_inode: 0,
            lo_rdevice: 0,
            lo_offset: 0,
            lo_sizelimit: 0,
            lo_number: 0,
            lo_encrypt_type: 0,
            lo_encrypt_key_size: 0,
            lo_flags: 0,
            lo_file_name: [0u8; 64],
            lo_crypt_name: [0u8; 64],
            lo_encrypt_key: [0u8; 32],
            lo_init: [0u64; 2],
        };
        assert(r.lo_file_name@ =~= Seq::new(64, |i: int| 0u8));
        r
    }

    /// The record that attaches `file` to a loop device from byte `offset`
    /// on, `sizelimit` bytes long: all zero but the file's name, NUL
    /// terminated, the offset and the limit. The errors are those of
    /// `path_to_cbuffer`.
    pub fn for_file(file: &str, offset: u64, sizelimit: u64) -> (r: Result<LoopInfo64, Error>)
        ensures
            nul_index(file.spec_bytes()) < file.spec_bytes().len() ==> (r matches Err(e) && e.kind
                == ErrorKind::Upstream),
            nul_index(file.spec_bytes()) == file.spec_bytes().len() && file.spec_bytes().len() + 1
                > LO_NAME_SIZE ==> (r matches Err(e) && e.kind == ErrorKind::InvParam),
            nul_index(file.spec_bytes()) == file.spec_bytes().len() && file.spec_bytes().len() + 1
                <= LO_NAME_SIZE ==> (r matches Ok(i) && i.lo_offset == offset && i.lo_sizelimit
                == sizelimit && i.lo_file_name@ == cbuffer_written(
                Seq::new(64, |k: int| 0u8),
                file.spec_bytes(),
            )),
    {
        let mut info = LoopInfo64::zeroed();
        match path_to_cbuffer(file, &mut info.lo_file_name) {
            Ok(()) => {
                info.lo_offset = offset;
                info.lo_sizelimit = sizelimit;
                Ok(info)
            },
            Err(e) => Err(e),
        }
    }
}

/// The device node of the loop device with the given index.
pub fn loop_path(index: u32) -> (r: String)
    ensures
        r@ == "/dev/loop"@ + decimal(index as nat),
{
    let mut v: Vec<char> = Vec::new();
    push_str(&mut v, "/dev/loop");
    let d = u64_to_decimal(index as u64);
    push_chars(&mut v, d.as_slice());
    string_from_chars(v.as_slice())
}

/// A loop device: its node, the file attached to it, and whether it is
/// detached when dropped. The open descriptor stays with the caller.
#[derive(Debug)]
pub struct LoopDevice {
    pub path: String,
    pub file: Option<String>,
    pub unset: bool,
}

/// What the status of a freshly opened loop device tells: a record names the
/// file attached to it (the bytes before the record's NUL, decoded); "no such
/// device" says none is; any other failure is an `Upstream` error.
pub open spec fn status_file(status: Result<LoopInfo64, i32>) -> Result<Option<Seq<char>>, ()> {
    match status {
        Ok(info) => Ok(
            Some(lossy_utf8(info.lo_file_name@.take(nul_index(info.lo_file_name@) as int))),
        ),
        Err(e) => if e == ENXIO {
            Ok(None)
        } else {
            Err(())
        },
    }
}

impl LoopDevice {
    /// The loop device at `index`, opened, with the status its driver gave
    /// (see `status_file`).
    pub fn from_status(index: u32, auto_unset: bool, status: Result<LoopInfo64, i32>) -> (r: Result<
        LoopDevice,
        Error,
    >)
        ensures
            match status_file(status) {
                Ok(f) => r matches Ok(d) && d.path@ == "/dev/loop"@ + decimal(index as nat)
                    && d.unset == auto_unset && match (f, d.file) {
                    (Some(a), Some(b)) => b@ == a,
                    (None, None) => true,
                    _ => false,
                },
                Err(_) => r matches Err(e) && e.kind == ErrorKind::Upstream,
            },
    {
        match status {
            Ok(info) => {
                let name = cbuffer_to_pathbuf(&info.lo_file_name);
                let f = utf8_lossy(name.as_slice());
                Ok(LoopDevice { path: loop_path(index), file: Some(f), unset: auto_unset })
            },
            Err(e) => if e == ENXIO {
                Ok(LoopDevice { path: loop_path(index), file: None, unset: auto_unset })
            } else {
                Err(
                    Error::with_context(
                        ErrorKind::Upstream,
                        "from_index: failed to retrieve loop info from device",
                    ),
                )
            },
        }
    }

    /// A loop device whose node was just created: nothing is attached.
    pub fn created(index: u32, auto_unset: bool) -> (r: LoopDevice)
        ensures
            r.path@ == "/dev/loop"@ + decimal(index as nat),
            r.file is None,
            r.unset == auto_unset,
    {
        LoopDevice { path: loop_path(index), file: None, unset: auto_unset }
    }

    pub fn get_path(&self) -> (r: &str)
        ensures
            r@ == self.path@,
    {
        self.path.as_str()
    }

    pub fn set_auto_unset(&mut self, auto_unset: bool)
        ensures
            final(self).unset == auto_unset,
            final(self).path == old(self).path,
            final(self).file == old(self).file,
    {
        self.unset = auto_unset;
    }

    /// Whether a file is attached.
    pub fn in_use(&self) -> (r: bool)
        ensures
            r == self.file is Some,
    {
        self.file.is_some()
    }

    /// A device in use cannot be set up again: an `InvState` error.
    pub fn check_setup(&self) -> (r: Result<(), Error>)
        ensures
            r is Ok <==> self.file is None,
            r matches Err(e) ==> e.kind == ErrorKind::InvState,
    {
        if self.file.is_some() {
            Err(Error::with_context(ErrorKind::InvState, "setup: device is in use"))
        } else {
            Ok(())
        }
    }

    /// Record the file attached by a successful setup.
    pub fn attach(&mut self, file: String)
        ensures
            final(self).file == Some(file),
            final(self).path == old(self).path,
            final(self).unset == old(self).unset,
    {
        self.file = Some(file);
    }

    /// Record that the file was detached.
    pub fn detach(&mut self)
        ensures
            final(self).file is None,
            final(self).path == old(self).path,
            final(self).unset == old(self).unset,
    {
        self.file = None;
    }

    /// The attached file, for a new offset; an `InvState` error where none is.
    pub fn modify_offset_file(&self) -> (r: Result<String, Error>)
        ensures
            match self.file {
                Some(f) => r matches Ok(x) && x@ == f@,
                None => r matches Err(e) && e.kind == ErrorKind::InvState,
            },
    {
        match &self.file {
            Some(f) => Ok(f.clone()),
            None => Err(
                Error::with_context(
                    ErrorKind::InvState,
                    "modify_offset: Device has no associated file",
                ),
            ),
        }
    }

    /// Whether dropping the device detaches its file.
    pub fn unset_on_drop(&self) -> (r: bool)
        ensures
            r == (self.unset && self.file is Some),
    {
        self.unset && self.file.is_some()
    }
}

/// Offset and size limit of a setup, zero where not given.
pub fn setup_window(offset: Option<u64>, sizelimit: Option<u64>) -> (r: (u64, u64))
    ensures
        r.0 == match offset {
            Some(o) => o,
            None => 0,
        },
        r.1 == match sizelimit {
            Some(s) => s,
            None => 0,
        },
{
    let o = match offset {
        Some(o) => o,
        None => 0,
    };
    let s = match sizelimit {
        Some(s) => s,
        None => 0,
    };
    (o, s)
}

/// What to do after setting a device's status failed with `errno`.
#[derive(Debug, Clone, Copy, PartialEq, Eq, Structural)]
pub enum StatusRetry {
    /// Try again, after a pause where `pause` is set, with this many tries left.
    Again { retries: i32, pause: bool },
    /// Give up with an `Upstream` error.
    Fail,
}

/// A busy device is asked again, pausing while tries are left (three at the
/// start); any other failure ends the setup.
pub fn status_retry(errno: i32, retries: i32) -> (r: StatusRetry)
    requires
        retries > i32::MIN,
    ensures
        errno == EAGAIN ==> r == (StatusRetry::Again { retries: (retries - 1) as i32, pause: retries - 1 > 0 }),
        errno != EAGAIN ==> r == StatusRetry::Fail,
{
    if errno == EAGAIN {
        let left = retries - 1;
        StatusRetry::Again { retries: left, pause: left > 0 }
    } else {
        StatusRetry::Fail
    }
}

} // verus!
