//! Which device the migration runs on, and whether its operating system has
//! been tested with it.
use vstd::prelude::*;

pub mod beaglebone;
pub mod intel_nuc;
pub mod raspberrypi;

use crate::common::{Error, ErrorKind, Options};
use crate::migrator::stage1::utils::OSArch;
use crate::text::{chars_eq, str_chars};
use beaglebone::{BeagleboardXM, BeagleboneBlack, BeagleboneGreen};
use intel_nuc::IntelNuc;
use raspberrypi::{RaspberryPi2, RaspberryPi3, RaspberryPi4_64};

verus! {

/// The device types that the migration knows.
#[derive(Debug, Clone, Copy, PartialEq, Eq, Structural)]
pub enum DeviceType {
    IntelNuc,
    RaspberryPi2,
    RaspberryPi3,
    RaspberryPi4,
    BeagleboneGreen,
    BeagleboneBlack,
    BeagleboardXM,
}

/// The device that the migration runs on.
#[derive(Debug)]
pub enum Device {
    IntelNuc(IntelNuc),
    RaspberryPi2(RaspberryPi2),
    RaspberryPi3(RaspberryPi3),
    RaspberryPi4_64(RaspberryPi4_64),
    BeagleboneGreen(BeagleboneGreen),
    BeagleboneBlack(BeagleboneBlack),
    BeagleboardXM(BeagleboardXM),
}

/// The type of a device.
pub open spec fn device_type_of(d: Device) -> DeviceType {
    match d {
        Device::IntelNuc(_) => DeviceType::IntelNuc,
        Device::RaspberryPi2(_) => DeviceType::RaspberryPi2,
        Device::RaspberryPi3(_) => DeviceType::RaspberryPi3,
        Device::RaspberryPi4_64(_) => DeviceType::RaspberryPi4,
        Device::BeagleboneGreen(_) => DeviceType::BeagleboneGreen,
        Device::BeagleboneBlack(_) => DeviceType::BeagleboneBlack,
        Device::BeagleboardXM(_) => DeviceType::BeagleboardXM,
    }
}

/// The balena device type names (slugs) that an image for a device type may
/// carry.
pub open spec fn slugs(t: DeviceType) -> Seq<Seq<char>> {
    match t {
        DeviceType::IntelNuc => seq!["intel-nuc"@, "genericx86-64-ext"@],
        DeviceType::RaspberryPi2 => seq!["raspberry-pi2"@],
        DeviceType::RaspberryPi3 => seq!["raspberrypi3"@],
        DeviceType::RaspberryPi4 => seq!["raspberrypi4-64"@],
        DeviceType::BeagleboneGreen => seq!["beaglebone-green"@],
        DeviceType::BeagleboneBlack => seq!["beaglebone-black"@],
        DeviceType::BeagleboardXM => seq!["beagleboard-xm"@],
    }
}

/// The views of a list of texts.
pub open spec fn strs_view(v: Seq<&str>) -> Seq<Seq<char>> {
    v.map_values(|s: &str| s@)
}

fn slugs_exec(t: DeviceType) -> (r: Vec<&'static str>)
    ensures
        strs_view(r@) == slugs(t),
{
    let mut r: Vec<&'static str> = Vec::new();
    match t {
        DeviceType::IntelNuc => {
            r.push("intel-nuc");
            r.push("genericx86-64-ext");
        },
        DeviceType::RaspberryPi2 => {
            r.push("raspberry-pi2");
        },
        DeviceType::RaspberryPi3 => {
            r.push("raspberrypi3");
        },
        DeviceType::RaspberryPi4 => {
            r.push("raspberrypi4-64");
        },
        DeviceType::BeagleboneGreen => {
            r.push("beaglebone-green");
        },
        DeviceType::BeagleboneBlack => {
            r.push("beaglebone-black");
        },
        DeviceType::BeagleboardXM => {
            r.push("beagleboard-xm");
        },
    }
    assert(strs_view(r@) =~= slugs(t));
    r
}

/// Whether `list` holds `s`.
pub fn str_listed(list: &[&str], s: &str) -> (r: bool)
    ensures
        r == strs_view(list@).contains(s@),
{
    let sc = str_chars(s);
    let mut i: usize = 0;
    while i < list.len()
        invariant
            i <= list@.len(),
            sc@ == s@,
            forall|j: int| 0 <= j < i ==> strs_view(list@)[j] != s@,
        decreases list@.len() - i,
    {
        let c = str_chars(list[i]);
        proof {
            assert(strs_view(list@)[i as int] == list@[i as int]@);
        }
        if chars_eq(c.as_slice(), sc.as_slice()) {
            proof {
                assert(strs_view(list@)[i as int] == s@);
            }
            return true;
        }
        i = i + 1;
    }
    proof {
        if strs_view(list@).contains(s@) {
            let j = choose|j: int| 0 <= j < strs_view(list@).len() && strs_view(list@)[j] == s@;
            assert(strs_view(list@)[j] != s@);
        }
    }
    false
}

impl DeviceType {
    /// The device type's name as balena writes it: the first of its slugs.
    pub fn slug(&self) -> (r: &'static str)
        ensures
            r@ == slugs(*self)[0],
    {
        let s = slugs_exec(*self);
        proof {
            assert(strs_view(s@).len() == s@.len());
            assert(slugs(*self).len() >= 1);
            assert(strs_view(s@)[0] == s@[0]@);
        }
        s[0]
    }
}

impl Device {
    pub fn get_device_type(&self) -> (r: DeviceType)
        ensures
            r == device_type_of(*self),
    {
        match self {
            Device::IntelNuc(_) => DeviceType::IntelNuc,
            Device::RaspberryPi2(_) => DeviceType::RaspberryPi2,
            Device::RaspberryPi3(_) => DeviceType::RaspberryPi3,
            Device::RaspberryPi4_64(_) => DeviceType::RaspberryPi4,
            Device::BeagleboneGreen(_) => DeviceType::BeagleboneGreen,
            Device::BeagleboneBlack(_) => DeviceType::BeagleboneBlack,
            Device::BeagleboardXM(_) => DeviceType::BeagleboardXM,
        }
    }

    /// Whether an image for the device type `dev_type` suits the device.
    pub fn supports_device_type(&self, dev_type: &str) -> (r: bool)
        ensures
            r == slugs(device_type_of(*self)).contains(dev_type@),
    {
        let s = slugs_exec(self.get_device_type());
        str_listed(s.as_slice(), dev_type)
    }
}

/// Whether the migration goes on with the operating system named `os_name`:
/// where it is not among the tested ones, only when the OS check is off.
pub open spec fn os_ok(supported: Seq<Seq<char>>, no_os_check: bool, os_name: Seq<char>) -> bool {
    supported.contains(os_name) || no_os_check
}

/// Check the operating system against the tested ones (see `os_ok`); the
/// error of reading its name is passed on.
pub fn check_os(supported: &[&str], opts: &Options, os_name: &Result<String, Error>) -> (r: Result<
    bool,
    Error,
>)
    ensures
        match os_name {
            Err(e) => r matches Err(e2) && e2 == *e,
            Ok(n) => r == Ok::<bool, Error>(os_ok(strs_view(supported@), opts.no_os_check, n@)),
        },
{
    match os_name {
        Err(e) => Err(e.duplicate()),
        Ok(n) => {
            if str_listed(supported, n.as_str()) {
                Ok(true)
            } else if opts.os_check() {
                Ok(false)
            } else {
                Ok(true)
            }
        },
    }
}

/// Trailing NUL characters and then trailing whitespace removed, as the
/// device tree's model string is read.
pub open spec fn model_trim(s: Seq<char>) -> Seq<char> {
    crate::text::trim_end(crate::migrator::stage1::device_impl::strip_trailing_nul(s))
}

pub open spec fn strip_trailing_nul(s: Seq<char>) -> Seq<char>
    decreases s.len(),
{
    if s.len() > 0 && s.last() == '\0' {
        strip_trailing_nul(s.drop_last())
    } else {
        s
    }
}

fn strip_trailing_nul_exec(s: &[char]) -> (r: Vec<char>)
    ensures
        r@ == strip_trailing_nul(s@),
{
    let mut n: usize = s.len();
    proof {
        assert(s@.take(n as int) =~= s@);
    }
    while n > 0 && s[n - 1] == '\0'
        invariant
            n <= s@.len(),
            strip_trailing_nul(s@.take(n as int)) == strip_trailing_nul(s@),
        decreases n,
    {
        proof {
            assert(s@.take(n as int).drop_last() =~= s@.take(n - 1));
        }
        n = n - 1;
    }
    crate::text::slice_to_vec(s, 0, n)
}

fn trim_end_exec(s: &[char]) -> (r: Vec<char>)
    ensures
        r@ == crate::text::trim_end(s@),
{
    let mut n: usize = s.len();
    while n > 0 && crate::text::is_whitespace(s[n - 1])
        invariant
            n <= s@.len(),
            forall|i: int| n <= i < s@.len() ==> crate::text::is_ws(#[trigger] s@[i]),
        decreases n,
    {
        n = n - 1;
    }
    proof {
        crate::text::lemma_rspan_ws_unique(s@, s@.len() - n);
    }
    crate::text::slice_to_vec(s, 0, n)
}

/// How finding the device ends.
pub enum Outcome {
    /// A device of this type.
    Found(DeviceType),
    /// An error whose message was shown.
    Displayed,
    /// This error, passed on.
    PassOn(Error),
    /// An error of this kind.
    Kind(ErrorKind),
}

pub open spec fn matches_outcome(r: Result<Device, Error>, o: Outcome) -> bool {
    match o {
        Outcome::Found(t) => r matches Ok(d) && device_type_of(d) == t,
        Outcome::Displayed => r matches Err(e) && e.kind == ErrorKind::Displayed,
        Outcome::PassOn(e) => r == Err::<Device, Error>(e),
        Outcome::Kind(k) => r matches Err(e) && e.kind == k,
    }
}

pub open spec fn matches_opt_outcome(r: Result<Option<Device>, Error>, o: Outcome) -> bool {
    match o {
        Outcome::Found(t) => r matches Ok(Some(d)) && device_type_of(d) == t,
        Outcome::Displayed => r matches Err(e) && e.kind == ErrorKind::Displayed,
        Outcome::PassOn(e) => r == Err::<Option<Device>, Error>(e),
        Outcome::Kind(k) => r matches Err(e) && e.kind == k,
    }
}

/// A device's configuration check: where it runs (`run`), the operating
/// system must pass `os_ok`, else the error is shown; an error of reading the
/// OS name is passed on.
pub open spec fn gate_outcome(
    run: bool,
    supported: Seq<Seq<char>>,
    no_os_check: bool,
    os_name: Result<String, Error>,
    t: DeviceType,
) -> Outcome {
    if !run {
        Outcome::Found(t)
    } else {
        match os_name {
            Err(e) => Outcome::PassOn(e),
            Ok(n) => if os_ok(supported, no_os_check, n@) {
                Outcome::Found(t)
            } else {
                Outcome::Displayed
            },
        }
    }
}

/// The device found from the architecture and, for ARM boards, the device
/// tree's model (`None` where it could not be read): a Raspberry Pi or a
/// BeagleBone by their model strings (trimmed, see `model_trim`), an Intel
/// NUC for x86_64. An ARM model that is neither is an `InvState` error, an
/// unreadable model an `Upstream` error, another architecture an `InvParam`
/// error.
pub open spec fn device_outcome(
    opts: Options,
    os_arch: OSArch,
    dev_tree_model: Option<Seq<char>>,
    os_name: Result<String, Error>,
    secure_boot: Result<bool, Error>,
) -> Outcome {
    match os_arch {
        OSArch::ARMHF => match dev_tree_model {
            None => Outcome::Kind(ErrorKind::Upstream),
            Some(raw) => {
                let m = model_trim(raw);
                match raspberrypi::rpi_outcome(opts, m, os_name) {
                    Some(o) => o,
                    None => match beaglebone::bb_outcome(opts, m, os_name) {
                        Some(o) => o,
                        None => Outcome::Kind(ErrorKind::InvState),
                    },
                }
            },
        },
        OSArch::AMD64 => intel_nuc::nuc_outcome(opts, os_name, secure_boot),
        _ => Outcome::Kind(ErrorKind::InvParam),
    }
}

/// Find the device (see `device_outcome`).
pub fn get_device(
    opts: &Options,
    os_arch: OSArch,
    dev_tree_model: Option<&str>,
    os_name: &Result<String, Error>,
    secure_boot: &Result<bool, Error>,
) -> (r: Result<Device, Error>)
    ensures
        matches_outcome(
            r,
            device_outcome(
                *opts,
                os_arch,
                match dev_tree_model {
                    Some(m) => Some(m@),
                    None => None,
                },
                *os_name,
                *secure_boot,
            ),
        ),
{
    match os_arch {
        OSArch::ARMHF => {
            let raw = match dev_tree_model {
                Some(m) => m,
                None => {
                    return Err(
                        Error::with_context(
                            ErrorKind::Upstream,
                            "get_device: unable to determine model",
                        ),
                    );
                },
            };
            let c = str_chars(raw);
            let stripped = strip_trailing_nul_exec(c.as_slice());
            let m = trim_end_exec(stripped.as_slice());
            let model = crate::text::string_from_chars(m.as_slice());
            if let Some(device) = raspberrypi::is_rpi(opts, model.as_str(), os_name)? {
                return Ok(device);
            }
            if let Some(device) = beaglebone::is_bb(opts, model.as_str(), os_name)? {
                return Ok(device);
            }
            Err(
                Error::with_context(
                    ErrorKind::InvState,
                    "Your device type is not supported by balena-migrate",
                ),
            )
        },
        OSArch::AMD64 => Ok(Device::IntelNuc(IntelNuc::from_config(opts, os_name, secure_boot)?)),
        _ => Err(
            Error::with_context(ErrorKind::InvParam, "get_device: unexpected OsArch encountered"),
        ),
    }
}

/// On an ARM board, a device tree model `Raspberry Pi <t> Model <m>` (NUL
/// terminated, as the device tree gives it) of type 2, 3 or 4 gives the
/// Raspberry Pi of that type (see `raspberrypi::law_rpi_type_per_model`),
/// whatever `m` is, and is never taken for another board.
pub proof fn law_rpi_device_from_model(
    opts: Options,
    t: Seq<char>,
    rest: Seq<char>,
    os_name: Result<String, Error>,
    secure_boot: Result<bool, Error>,
)
    requires
        t == "2"@ || t == "3"@ || t == "4"@,
        rest.len() > 0,
        !crate::text::is_ws(rest.last()),
        rest.last() != '\0',
        forall|i: int| 0 <= i < rest.len() ==> #[trigger] rest[i] != '\n',
    ensures
        ({
            let want = if t == "2"@ {
                DeviceType::RaspberryPi2
            } else if t == "3"@ {
                DeviceType::RaspberryPi3
            } else {
                DeviceType::RaspberryPi4
            };
            let o = device_outcome(
                opts,
                OSArch::ARMHF,
                Some(raspberrypi::rpi_model(t, rest).push('\0')),
                os_name,
                secure_boot,
            );
            &&& (o matches Outcome::Found(x) ==> x == want)
            &&& (opts.download_only ==> o == Outcome::Found(want))
            &&& (os_name matches Ok(nm) && nm@ == "Raspbian GNU/Linux 10 (buster)"@ ==> o
                == Outcome::Found(want))
        }),
{
    let m = raspberrypi::rpi_model(t, rest);
    assert(m.last() == rest.last());
    assert(m.push('\0').drop_last() =~= m);
    assert(strip_trailing_nul(m.push('\0')) == strip_trailing_nul(m));
    assert(strip_trailing_nul(m) == m);
    assert(crate::text::rspan_ws(m) == 0);
    assert(m.take(m.len() as int) =~= m);
    assert(model_trim(m.push('\0')) == m);
    raspberrypi::law_rpi_type_per_model(opts, t, rest, os_name);
}

} // verus!
