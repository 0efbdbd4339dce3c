//! Raspberry Pi boards, known by the device tree's model string
//! `Raspberry Pi <type> Model <model>`.
use vstd::prelude::*;

use crate::common::{Error, ErrorKind, Options};
use crate::migrator::stage1::device_impl::{
    check_os, gate_outcome, matches_opt_outcome, slugs, strs_view, Device, DeviceType, Outcome,
};
use crate::migrator::stage1::device_impl::intel_nuc::run_gate;
use crate::text::{
    lit_at, lit_at_exec, word_at, ws_at, chars_eq, find_char, find_char_from, is_ws, lemma_span, non_ws_pred, slice_to_vec, span,
    span_non_ws_from, span_ws_from, str_chars, ws_pred, lemma_span_unique, lemma_span_at, not_char_pred,
};

verus! {

/// The board type of a model string `Raspberry Pi <type> Model <model>`:
/// whitespace between the parts, the type without whitespace, the model to
/// the end of the text without a line break.
pub open spec fn rpi_pitype(m: Seq<char>) -> Option<Seq<char>> {
    let a = 9 + ws_at(m, 9);
    let b = a + 2 + ws_at(m, a + 2);
    let c = b + word_at(m, b);
    let d = c + ws_at(m, c);
    let e = d + 5 + ws_at(m, d + 5);
    if lit_at(m, 0, "Raspberry"@) && a > 9 && lit_at(m, a, "Pi"@) && b > a + 2 && c > b && d > c
        && lit_at(m, d, "Model"@) && e > d + 5 && find_char(m.skip(e), '\n') == m.len() - e {
        Some(m.subrange(b, c))
    } else {
        None
    }
}

pub open spec fn rpi2_osses() -> Seq<Seq<char>> {
    seq!["Raspbian GNU/Linux 10 (buster)"@]
}

pub open spec fn rpi3_osses() -> Seq<Seq<char>> {
    seq![
        "Raspbian GNU/Linux 8 (jessie)"@,
        "Raspbian GNU/Linux 9 (stretch)"@,
        "Raspbian GNU/Linux 10 (buster)"@,
    ]
}

fn rpi2_osses_exec() -> (r: Vec<&'static str>)
    ensures
        strs_view(r@) == rpi2_osses(),
{
    let mut r: Vec<&'static str> = Vec::new();
    r.push("Raspbian GNU/Linux 10 (buster)");
    assert(strs_view(r@) =~= rpi2_osses());
    r
}

fn rpi3_osses_exec() -> (r: Vec<&'static str>)
    ensures
        strs_view(r@) == rpi3_osses(),
{
    let mut r: Vec<&'static str> = Vec::new();
    r.push("Raspbian GNU/Linux 8 (jessie)");
    r.push("Raspbian GNU/Linux 9 (stretch)");
    r.push("Raspbian GNU/Linux 10 (buster)");
    assert(strs_view(r@) =~= rpi3_osses());
    r
}

/// What the model string makes of the device: nothing where it is no
/// Raspberry Pi; types 2, 3 and 4 after their configuration check (run only
/// when migrating); another type is an `InvParam` error.
pub open spec fn rpi_outcome(opts: Options, m: Seq<char>, os_name: Result<String, Error>) -> Option<
    Outcome,
> {
    match rpi_pitype(m) {
        None => None,
        Some(t) => Some(
            if t == "2"@ {
                gate_outcome(
                    !opts.download_only,
                    rpi2_osses(),
                    opts.no_os_check,
                    os_name,
                    DeviceType::RaspberryPi2,
                )
            } else if t == "3"@ {
                gate_outcome(
                    !opts.download_only,
                    rpi3_osses(),
                    opts.no_os_check,
                    os_name,
                    DeviceType::RaspberryPi3,
                )
            } else if t == "4"@ {
                gate_outcome(
                    !opts.download_only,
                    rpi3_osses(),
                    opts.no_os_check,
                    os_name,
                    DeviceType::RaspberryPi4,
                )
            } else {
                Outcome::Kind(ErrorKind::InvParam)
            },
        ),
    }
}

fn rpi_pitype_exec(m: &[char]) -> (r: Option<Vec<char>>)
    ensures
        match rpi_pitype(m@) {
            Some(t) => r matches Some(v) && v@ == t,
            None => r is None,
        },
{
    proof {
        reveal_strlit("Raspberry");
        reveal_strlit("Pi");
        reveal_strlit("Model");
    }
    if !lit_at_exec(m, 0, "Raspberry") {
        return None;
    }
    let a = span_ws_from(m, 9);
    if a == 9 || !lit_at_exec(m, a, "Pi") {
        return None;
    }
    let n = m.len();
    assert(a + 2 <= n);
    let b = span_ws_from(m, a + 2);
    if b == a + 2 {
        return None;
    }
    let c = span_non_ws_from(m, b);
    if c == b {
        return None;
    }
    let d = span_ws_from(m, c);
    if d == c || !lit_at_exec(m, d, "Model") {
        return None;
    }
    assert(d + 5 <= n);
    let e = span_ws_from(m, d + 5);
    if e == d + 5 {
        return None;
    }
    let nl = find_char_from(m, e, '\n');
    if nl != m.len() {
        return None;
    }
    Some(slice_to_vec(m, b, c))
}

/// The Raspberry Pi that a model string names, if it names one (see
/// `rpi_outcome`).
pub fn is_rpi(opts: &Options, model_string: &str, os_name: &Result<String, Error>) -> (r: Result<
    Option<Device>,
    Error,
>)
    ensures
        match rpi_outcome(*opts, model_string@, *os_name) {
            None => r == Ok::<Option<Device>, Error>(None),
            Some(o) => matches_opt_outcome(r, o),
        },
{
    let m = str_chars(model_string);
    let t = match rpi_pitype_exec(m.as_slice()) {
        Some(t) => t,
        None => {
            return Ok(None);
        },
    };
    if chars_eq(t.as_slice(), str_chars("2").as_slice()) {
        Ok(Some(Device::RaspberryPi2(RaspberryPi2::from_config(opts, os_name)?)))
    } else if chars_eq(t.as_slice(), str_chars("3").as_slice()) {
        Ok(Some(Device::RaspberryPi3(RaspberryPi3::from_config(opts, os_name)?)))
    } else if chars_eq(t.as_slice(), str_chars("4").as_slice()) {
        Ok(Some(Device::RaspberryPi4_64(RaspberryPi4_64::from_config(opts, os_name)?)))
    } else {
        Err(
            Error::with_context(
                ErrorKind::InvParam,
                "The raspberry pi type reported by your device is not supported by balena-migrate",
            ),
        )
    }
}

/// The result `r` of a configuration check ends as `o` says.
pub open spec fn matches_gate<T>(r: Result<T, Error>, o: Outcome) -> bool {
    match o {
        Outcome::Found(_) => r is Ok,
        Outcome::Displayed => r matches Err(e) && e.kind == ErrorKind::Displayed,
        Outcome::PassOn(e) => r matches Err(x) && x == e,
        Outcome::Kind(k) => r matches Err(e) && e.kind == k,
    }
}

#[derive(Debug)]
pub struct RaspberryPi2;

impl RaspberryPi2 {
    pub fn from_config(opts: &Options, os_name: &Result<String, Error>) -> (r: Result<
        RaspberryPi2,
        Error,
    >)
        ensures
            matches_gate(
                r,
                gate_outcome(
                    !opts.download_only,
                    rpi2_osses(),
                    opts.no_os_check,
                    *os_name,
                    DeviceType::RaspberryPi2,
                ),
            ),
    {
        let list = rpi2_osses_exec();
        run_gate(opts.migrate(), list.as_slice(), opts, os_name)?;
        Ok(RaspberryPi2)
    }
}

#[derive(Debug)]
pub struct RaspberryPi3;

impl RaspberryPi3 {
    pub fn from_config(opts: &Options, os_name: &Result<String, Error>) -> (r: Result<
        RaspberryPi3,
        Error,
    >)
        ensures
            matches_gate(
                r,
                gate_outcome(
                    !opts.download_only,
                    rpi3_osses(),
                    opts.no_os_check,
                    *os_name,
                    DeviceType::RaspberryPi3,
                ),
            ),
    {
        let list = rpi3_osses_exec();
        run_gate(opts.migrate(), list.as_slice(), opts, os_name)?;
        Ok(RaspberryPi3)
    }
}

#[derive(Debug)]
pub struct RaspberryPi4_64;

impl RaspberryPi4_64 {
    pub fn from_config(opts: &Options, os_name: &Result<String, Error>) -> (r: Result<
        RaspberryPi4_64,
        Error,
    >)
        ensures
            matches_gate(
                r,
                gate_outcome(
                    !opts.download_only,
                    rpi3_osses(),
                    opts.no_os_check,
                    *os_name,
                    DeviceType::RaspberryPi4,
                ),
            ),
    {
        let list = rpi3_osses_exec();
        run_gate(opts.migrate(), list.as_slice(), opts, os_name)?;
        Ok(RaspberryPi4_64)
    }
}

/// The model string `Raspberry Pi <t> Model <rest>`, single spaces between
/// the parts.
pub open spec fn rpi_model(t: Seq<char>, rest: Seq<char>) -> Seq<char> {
    "Raspberry"@ + seq![' '] + "Pi"@ + seq![' '] + t + seq![' '] + "Model"@ + seq![' '] + rest
}

/// A model string `Raspberry Pi <t> Model <rest>` names the board type `t`,
/// whatever the one-word type and whatever follows `Model` on the line.
pub proof fn law_rpi_model_names_type(t: Seq<char>, rest: Seq<char>)
    requires
        t.len() > 0,
        forall|i: int| 0 <= i < t.len() ==> !is_ws(#[trigger] t[i]),
        forall|i: int| 0 <= i < rest.len() ==> #[trigger] rest[i] != '\n',
    ensures
        rpi_pitype(rpi_model(t, rest)) == Some(t),
{
    reveal_strlit("Raspberry");
    reveal_strlit("Pi");
    reveal_strlit("Model");
    let m = rpi_model(t, rest);
    let n = t.len() as int;
    assert(m.len() == 20 + n + rest.len());
    assert(m[9] == ' ');
    assert(m[10] == 'P');
    assert(m[12] == ' ');
    assert(m[13] == t[0]);
    assert(m[13 + n] == ' ');
    assert(m[14 + n] == 'M');
    assert(m[19 + n] == ' ');
    assert forall|j: int| 13 <= j < 13 + n implies #[trigger] non_ws_pred()(m[j]) by {
        assert(m[j] == t[j - 13]);
    }
    lemma_span_at(m, 9, 1, ws_pred());
    lemma_span_at(m, 12, 1, ws_pred());
    lemma_span_at(m, 13, n, non_ws_pred());
    lemma_span_at(m, 13 + n, 1, ws_pred());
    let a = 9 + ws_at(m, 9);
    let b = a + 2 + ws_at(m, a + 2);
    let c = b + word_at(m, b);
    let d = c + ws_at(m, c);
    assert(a == 10 && b == 13 && c == 13 + n && d == 14 + n);
    assert(m.subrange(0, 9) =~= "Raspberry"@);
    assert(m.subrange(10, 12) =~= "Pi"@);
    assert(m.subrange(d, d + 5) =~= "Model"@);
    assert(m.subrange(b, c) =~= t);
    lemma_span(m.skip(d + 5), ws_pred());
    assert(m.skip(d + 5)[0] == ' ');
    let e = d + 5 + ws_at(m, d + 5);
    assert(e > d + 5);
    assert forall|j: int| 0 <= j < m.len() - e implies #[trigger] not_char_pred('\n')(m.skip(e)[j]) by {
        assert(m.skip(e)[j] == m[e + j]);
        assert(m[e + j] == rest[e + j - 20 - n]);
    }
    lemma_span_unique(m.skip(e), not_char_pred('\n'), m.len() - e);
}

/// Each Raspberry Pi type has its own device type: a model string naming
/// type 2, 3 or 4 gives a Raspberry Pi 2 (`raspberry-pi2`), 3
/// (`raspberrypi3`) or 4 (`raspberrypi4-64`), found without a configuration
/// check or with a tested system, and never a device of another type.
pub proof fn law_rpi_type_per_model(
    opts: Options,
    t: Seq<char>,
    rest: Seq<char>,
    os_name: Result<String, Error>,
)
    requires
        t == "2"@ || t == "3"@ || t == "4"@,
        forall|i: int| 0 <= i < rest.len() ==> #[trigger] rest[i] != '\n',
    ensures
        ({
            let want = if t == "2"@ {
                DeviceType::RaspberryPi2
            } else if t == "3"@ {
                DeviceType::RaspberryPi3
            } else {
                DeviceType::RaspberryPi4
            };
            let slug = if t == "2"@ {
                "raspberry-pi2"@
            } else if t == "3"@ {
                "raspberrypi3"@
            } else {
                "raspberrypi4-64"@
            };
            &&& rpi_outcome(opts, rpi_model(t, rest), os_name) matches Some(o)
            &&& slugs(want)[0] == slug
            &&& (o matches Outcome::Found(x) ==> x == want)
            &&& (opts.download_only ==> o == Outcome::Found(want))
            &&& (os_name matches Ok(nm) && nm@ == "Raspbian GNU/Linux 10 (buster)"@ ==> o
                == Outcome::Found(want))
            &&& (o is Found || o is Displayed || o is PassOn)
        }),
{
    reveal_strlit("2");
    reveal_strlit("3");
    reveal_strlit("4");
    assert(!is_ws(t[0]));
    law_rpi_model_names_type(t, rest);
    assert(rpi2_osses()[0] == "Raspbian GNU/Linux 10 (buster)"@);
    assert(rpi3_osses()[2] == "Raspbian GNU/Linux 10 (buster)"@);
}

} // verus!
