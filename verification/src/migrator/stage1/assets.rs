//! The assets that stage 1 carries: the compressed `busybox` executable, the
//! build number, and the script that starts stage 2.
use vstd::prelude::*;

use crate::common::options::LogLevel;
use crate::common::{Error, ErrorKind};
use crate::migrator::stage1::utils::OSArch;
use crate::migrator::stage1::wifi_config::{replace_all, replace_all_exec};
use crate::text::{parse_u32, parse_u32_spec, str_chars, string_from_chars};

verus! {

/// The number of bytes that gzip-compressed `data` decompresses to, where
/// it is a valid gzip stream.
pub uninterp spec fn gunzip_len(data: Seq<u8>) -> Option<u64>;

/// Decompresses `data` with `flate2::read::GzDecoder` into `std::io::sink`
/// through `std::io::copy`, which counts the bytes; `None` where decoding
/// fails. The count is named by `gunzip_len`, not stated.
#[verifier::external_body]
fn gz_decoded_size(data: &[u8]) -> (r: Option<u64>)
    ensures
        r == gunzip_len(data@),
{
    std::io::copy(&mut flate2::read::GzDecoder::new(data), &mut std::io::sink()).ok()
}

/// The compressed busybox executable for an architecture.
#[derive(Debug)]
pub struct Assets {
    pub arch: OSArch,
    pub busybox: Vec<u8>,
}

/// The text of the script that starts stage 2.
pub open spec fn stage2_template() -> Seq<char> {
    "#!__TO__/busybox sh\necho \"takeover init started\"\nif [ -f \"__TO____TTY__\" ]; then \n  exec <\"__TO____TTY__\" >\"__TO____TTY__\" 2>\"__TO____TTY__\"\nfi\ncd \"__TO__\"\necho \"Init takeover successful\"\necho \"Pivoting root...\"\nmount --make-rprivate /\npivot_root . mnt/old_root\necho \"Chrooting and running init...\"\nexec ./busybox chroot . /takeover --init --s2-log-level __LOG_LEVEL__\n"@
}

pub open spec fn level_name(l: LogLevel) -> Seq<char> {
    match l {
        LogLevel::Error => "ERROR"@,
        LogLevel::Warn => "WARN"@,
        LogLevel::Info => "INFO"@,
        LogLevel::Debug => "DEBUG"@,
        LogLevel::Trace => "TRACE"@,
    }
}

/// The stage 2 script: the takeover directory, then the terminal, then the
/// log level put into the template, in that order (see `replace_all`).
pub open spec fn stage2_script_spec(to_dir: Seq<char>, tty: Seq<char>, level: LogLevel) -> Seq<char> {
    replace_all(
        replace_all(replace_all(stage2_template(), "__TO__"@, to_dir), "__TTY__"@, tty),
        "__LOG_LEVEL__"@,
        level_name(level),
    )
}

/// The build number in a build number file: its bytes, all ASCII, are a
/// number of 32 bits; otherwise there is none.
pub open spec fn build_num_spec(b: Seq<u8>) -> Option<u32> {
    if forall|i: int| 0 <= i < b.len() ==> #[trigger] b[i] < 128 {
        parse_u32_spec(b.map_values(|x: u8| x as char))
    } else {
        None
    }
}

impl Assets {
    pub fn new(arch: OSArch, busybox: Vec<u8>) -> (r: Assets)
        ensures
            r.arch == arch,
            r.busybox == busybox,
    {
        Assets { arch, busybox }
    }

    /// The build number of a build number file's bytes (see
    /// `build_num_spec`); an `Upstream` error where it has none.
    pub fn get_build_num(build_num: &[u8]) -> (r: Result<u32, Error>)
        ensures
            match build_num_spec(build_num@) {
                Some(n) => r == Ok::<u32, Error>(n),
                None => r matches Err(e) && e.kind == ErrorKind::Upstream,
            },
    {
        let mut chars: Vec<char> = Vec::new();
        let mut i: usize = 0;
        while i < build_num.len()
            invariant
                i <= build_num@.len(),
                chars@ == build_num@.take(i as int).map_values(|x: u8| x as char),
                forall|j: int| 0 <= j < i ==> #[trigger] build_num@[j] < 128,
            decreases build_num@.len() - i,
        {
            let b = build_num[i];
            if b >= 128 {
                return Err(
                    Error::with_context(ErrorKind::Upstream, "Failed to parse string from build num"),
                );
            }
            chars.push(b as char);
            proof {
                assert(build_num@.take(i + 1).map_values(|x: u8| x as char) =~= build_num@.take(
                    i as int,
                ).map_values(|x: u8| x as char).push(b as char));
            }
            i = i + 1;
        }
        proof {
            assert(build_num@.take(build_num@.len() as int) =~= build_num@);
        }
        match parse_u32(chars.as_slice()) {
            Some(n) => Ok(n),
            None => Err(Error::with_context(ErrorKind::Upstream, "Failed to parse build num from string")),
        }
    }

    /// The stage 2 script for the takeover directory `to_dir`, the terminal
    /// `tty` and the log level (see `stage2_script_spec`).
    pub fn write_stage2_script(to_dir: &str, tty: &str, log_level: LogLevel) -> (r: String)
        ensures
            r@ == stage2_script_spec(to_dir@, tty@, log_level),
    {
        let t = str_chars(
            "#!__TO__/busybox sh\necho \"takeover init started\"\nif [ -f \"__TO____TTY__\" ]; then \n  exec <\"__TO____TTY__\" >\"__TO____TTY__\" 2>\"__TO____TTY__\"\nfi\ncd \"__TO__\"\necho \"Init takeover successful\"\necho \"Pivoting root...\"\nmount --make-rprivate /\npivot_root . mnt/old_root\necho \"Chrooting and running init...\"\nexec ./busybox chroot . /takeover --init --s2-log-level __LOG_LEVEL__\n",
        );
        let s1 = replace_all_exec(t.as_slice(), str_chars("__TO__").as_slice(), str_chars(to_dir).as_slice());
        let s2 = replace_all_exec(s1.as_slice(), str_chars("__TTY__").as_slice(), str_chars(tty).as_slice());
        let s3 = replace_all_exec(
            s2.as_slice(),
            str_chars("__LOG_LEVEL__").as_slice(),
            str_chars(log_level.as_str()).as_slice(),
        );
        string_from_chars(s3.as_slice())
    }

    /// The size of the decompressed busybox executable, from the result of
    /// decompressing it; an `Upstream` error where that failed.
    pub fn size_from_decoded(decoded: Option<u64>) -> (r: Result<u64, Error>)
        ensures
            match decoded {
                Some(n) => r == Ok::<u64, Error>(n),
                None => r matches Err(e) && e.kind == ErrorKind::Upstream,
            },
    {
        match decoded {
            Some(n) => Ok(n),
            None => Err(Error::with_context(ErrorKind::Upstream, "Failed to uncompress busybox executable")),
        }
    }

    /// The size of the decompressed busybox executable (see `gunzip_len`).
    pub fn busybox_size(&self) -> (r: Result<u64, Error>)
        ensures
            match gunzip_len(self.busybox@) {
                Some(n) => r == Ok::<u64, Error>(n),
                None => r matches Err(e) && e.kind == ErrorKind::Upstream,
            },
    {
        Assets::size_from_decoded(gz_decoded_size(self.busybox.as_slice()))
    }
}

} // verus!
