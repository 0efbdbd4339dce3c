//! BeagleBone and BeagleBoard boards, known by the device tree's model
//! string: `TI AM335x BeagleBone`, or words ending in `BeagleBone <model>` or
//! `BeagleBoard <model>`.
use vstd::prelude::*;

use crate::common::{Error, ErrorKind, Options};
use crate::migrator::stage1::device_impl::intel_nuc::run_gate;
use crate::migrator::stage1::device_impl::raspberrypi::matches_gate;
use crate::migrator::stage1::device_impl::{
    gate_outcome, matches_opt_outcome, strip_trailing_nul, strs_view, Device, DeviceType, Outcome,
};
use crate::text::{chars_eq, is_whitespace, is_ws, slice_to_vec, split_ws, str_chars, view_all, words};

verus! {

/// Leading NUL characters removed.
pub open spec fn strip_leading_nul(s: Seq<char>) -> Seq<char>
    decreases s.len(),
{
    if s.len() > 0 && s[0] == '\0' {
        strip_leading_nul(s.drop_first())
    } else {
        s
    }
}

/// The board model that a model string names: its last word, NULs trimmed,
/// where the text begins and ends with a non-whitespace character and the
/// word before the last is `BeagleBone` or `BeagleBoard` with a word before
/// it.
pub open spec fn bb_kind(m: Seq<char>) -> Option<Seq<char>> {
    let w = words(m);
    if m.len() > 0 && !is_ws(m[0]) && !is_ws(m.last()) && w.len() >= 3 && (w[w.len() - 2]
        == "BeagleBone"@ || w[w.len() - 2] == "BeagleBoard"@) {
        Some(strip_leading_nul(strip_trailing_nul(w.last())))
    } else {
        None
    }
}

pub open spec fn bb_osses() -> Seq<Seq<char>> {
    seq![
        "Ubuntu 18.04.2 LTS"@,
        "Ubuntu 14.04.1 LTS"@,
        "Debian GNU/Linux 9 (stretch)"@,
        "Debian GNU/Linux 7 (wheezy)"@,
    ]
}

fn bb_osses_exec() -> (r: Vec<&'static str>)
    ensures
        strs_view(r@) == bb_osses(),
{
    let mut r: Vec<&'static str> = Vec::new();
    r.push("Ubuntu 18.04.2 LTS");
    r.push("Ubuntu 14.04.1 LTS");
    r.push("Debian GNU/Linux 9 (stretch)");
    r.push("Debian GNU/Linux 7 (wheezy)");
    assert(strs_view(r@) =~= bb_osses());
    r
}

/// What the model string makes of the device: `TI AM335x BeagleBone` is a
/// BeagleBone Green; otherwise the model `xM` a BeagleBoard xM (checked only
/// when migrating), `Green` and `Black` the BeagleBones (always checked),
/// another model an `InvParam` error; nothing where it names no such board.
pub open spec fn bb_outcome(opts: Options, m: Seq<char>, os_name: Result<String, Error>) -> Option<
    Outcome,
> {
    if m == "TI AM335x BeagleBone"@ {
        Some(gate_outcome(true, bb_osses(), opts.no_os_check, os_name, DeviceType::BeagleboneGreen))
    } else {
        match bb_kind(m) {
            None => None,
            Some(t) => Some(
                if t == "xM"@ {
                    gate_outcome(
                        !opts.download_only,
                        bb_osses(),
                        opts.no_os_check,
                        os_name,
                        DeviceType::BeagleboardXM,
                    )
                } else if t == "Green"@ {
                    gate_outcome(true, bb_osses(), opts.no_os_check, os_name, DeviceType::BeagleboneGreen)
                } else if t == "Black"@ {
                    gate_outcome(true, bb_osses(), opts.no_os_check, os_name, DeviceType::BeagleboneBlack)
                } else {
                    Outcome::Kind(ErrorKind::InvParam)
                },
            ),
        }
    }
}

fn strip_nul_exec(s: &[char]) -> (r: Vec<char>)
    ensures
        r@ == strip_leading_nul(strip_trailing_nul(s@)),
{
    let mut n: usize = s.len();
    proof {
        assert(s@.take(n as int) =~= s@);
    }
    while n > 0 && s[n - 1] == '\0'
        invariant
            n <= s@.len(),
            strip_trailing_nul(s@.take(n as int)) == strip_trailing_nul(s@),
        decreases n,
    {
        proof {
            assert(s@.take(n as int).drop_last() =~= s@.take(n - 1));
        }
        n = n - 1;
    }
    proof {
        assert(strip_trailing_nul(s@.take(n as int)) == s@.take(n as int));
    }
    let mut i: usize = 0;
    proof {
        assert(s@.take(n as int).skip(0) =~= s@.take(n as int));
    }
    while i < n && s[i] == '\0'
        invariant
            i <= n <= s@.len(),
            strip_leading_nul(s@.subrange(i as int, n as int)) == strip_leading_nul(
                s@.take(n as int),
            ),
        decreases n - i,
    {
        proof {
            assert(s@.subrange(i as int, n as int).drop_first() =~= s@.subrange(i + 1, n as int));
        }
        i = i + 1;
    }
    proof {
        assert(s@.take(n as int) =~= s@.subrange(0, n as int));
    }
    slice_to_vec(s, i, n)
}

fn bb_kind_exec(m: &[char]) -> (r: Option<Vec<char>>)
    ensures
        match bb_kind(m@) {
            Some(t) => r matches Some(v) && v@ == t,
            None => r is None,
        },
{
    if m.len() == 0 || is_whitespace(m[0]) || is_whitespace(m[m.len() - 1]) {
        return None;
    }
    let w = split_ws(m);
    if w.len() < 3 {
        return None;
    }
    let n = w.len();
    proof {
        assert(view_all(w@)[n - 2] == w@[n - 2]@);
        assert(view_all(w@)[n - 1] == w@[n - 1]@);
    }
    let bone = str_chars("BeagleBone");
    let board = str_chars("BeagleBoard");
    if !chars_eq(w[n - 2].as_slice(), bone.as_slice()) && !chars_eq(
        w[n - 2].as_slice(),
        board.as_slice(),
    ) {
        return None;
    }
    Some(strip_nul_exec(w[n - 1].as_slice()))
}

/// The BeagleBone or BeagleBoard that a model string names, if it names one
/// (see `bb_outcome`).
pub fn is_bb(opts: &Options, model_string: &str, os_name: &Result<String, Error>) -> (r: Result<
    Option<Device>,
    Error,
>)
    ensures
        match bb_outcome(*opts, model_string@, *os_name) {
            None => r == Ok::<Option<Device>, Error>(None),
            Some(o) => matches_opt_outcome(r, o),
        },
{
    let m = str_chars(model_string);
    if chars_eq(m.as_slice(), str_chars("TI AM335x BeagleBone").as_slice()) {
        return Ok(Some(Device::BeagleboneGreen(BeagleboneGreen::from_config(opts, os_name)?)));
    }
    let t = match bb_kind_exec(m.as_slice()) {
        Some(t) => t,
        None => {
            return Ok(None);
        },
    };
    if chars_eq(t.as_slice(), str_chars("xM").as_slice()) {
        Ok(Some(Device::BeagleboardXM(BeagleboardXM::from_config(opts, os_name)?)))
    } else if chars_eq(t.as_slice(), str_chars("Green").as_slice()) {
        Ok(Some(Device::BeagleboneGreen(BeagleboneGreen::from_config(opts, os_name)?)))
    } else if chars_eq(t.as_slice(), str_chars("Black").as_slice()) {
        Ok(Some(Device::BeagleboneBlack(BeagleboneBlack::from_config(opts, os_name)?)))
    } else {
        Err(
            Error::with_context(
                ErrorKind::InvParam,
                "The beaglebone model reported by your device is not supported by balena-migrate",
            ),
        )
    }
}

#[derive(Debug)]
pub struct BeagleboneGreen;

impl BeagleboneGreen {
    pub fn from_config(opts: &Options, os_name: &Result<String, Error>) -> (r: Result<
        BeagleboneGreen,
        Error,
    >)
        ensures
            matches_gate(
                r,
                gate_outcome(true, bb_osses(), opts.no_os_check, *os_name, DeviceType::BeagleboneGreen),
            ),
    {
        let list = bb_osses_exec();
        run_gate(true, list.as_slice(), opts, os_name)?;
        Ok(BeagleboneGreen)
    }
}

#[derive(Debug)]
pub struct BeagleboneBlack;

impl BeagleboneBlack {
    pub fn from_config(opts: &Options, os_name: &Result<String, Error>) -> (r: Result<
        BeagleboneBlack,
        Error,
    >)
        ensures
            matches_gate(
                r,
                gate_outcome(true, bb_osses(), opts.no_os_check, *os_name, DeviceType::BeagleboneBlack),
            ),
    {
        let list = bb_osses_exec();
        run_gate(true, list.as_slice(), opts, os_name)?;
        Ok(BeagleboneBlack)
    }
}

#[derive(Debug)]
pub struct BeagleboardXM;

impl BeagleboardXM {
    pub fn from_config(opts: &Options, os_name: &Result<String, Error>) -> (r: Result<
        BeagleboardXM,
        Error,
    >)
        ensures
            matches_gate(
                r,
                gate_outcome(
                    !opts.download_only,
                    bb_osses(),
                    opts.no_os_check,
                    *os_name,
                    DeviceType::BeagleboardXM,
                ),
            ),
    {
        let list = bb_osses_exec();
        run_gate(opts.migrate(), list.as_slice(), opts, os_name)?;
        Ok(BeagleboardXM)
    }
}

} // verus!
