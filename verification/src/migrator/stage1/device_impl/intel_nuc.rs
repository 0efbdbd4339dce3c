//! Generic x86_64 machines and Intel NUCs.
use vstd::prelude::*;

use crate::common::{Error, ErrorKind, Options};
use crate::migrator::stage1::device_impl::{
    check_os, gate_outcome, os_ok, strs_view, DeviceType, Outcome,
};
use crate::migrator::stage1::device_impl::raspberrypi::matches_gate;

verus! {

/// Run a configuration check where `run` says so (see `gate_outcome`).
pub fn run_gate(run: bool, supported: &[&str], opts: &Options, os_name: &Result<String, Error>) -> (r: Result<
    (),
    Error,
>)
    ensures
        matches_gate(
            r,
            gate_outcome(run, strs_view(supported@), opts.no_os_check, *os_name, DeviceType::IntelNuc),
        ),
{
    if run && !check_os(supported, opts, os_name)? {
        return Err(Error::displayed());
    }
    Ok(())
}

pub open spec fn nuc_osses() -> Seq<Seq<char>> {
    seq![
        "Ubuntu 18.04.3 LTS"@,
        "Ubuntu 18.04.2 LTS"@,
        "Ubuntu 16.04.2 LTS"@,
        "Ubuntu 16.04.6 LTS"@,
        "Ubuntu 14.04.2 LTS"@,
        "Ubuntu 14.04.5 LTS"@,
        "Ubuntu 14.04.6 LTS"@,
        "Manjaro Linux"@,
    ]
}

fn nuc_osses_exec() -> (r: Vec<&'static str>)
    ensures
        strs_view(r@) == nuc_osses(),
{
    let mut r: Vec<&'static str> = Vec::new();
    r.push("Ubuntu 18.04.3 LTS");
    r.push("Ubuntu 18.04.2 LTS");
    r.push("Ubuntu 16.04.2 LTS");
    r.push("Ubuntu 16.04.6 LTS");
    r.push("Ubuntu 14.04.2 LTS");
    r.push("Ubuntu 14.04.5 LTS");
    r.push("Ubuntu 14.04.6 LTS");
    r.push("Manjaro Linux");
    assert(strs_view(r@) =~= nuc_osses());
    r
}

/// An x86_64 machine passes when its operating system does (the check always
/// runs) and secure boot is off; with secure boot on the error is shown, and
/// an error of finding out is passed on.
pub open spec fn nuc_outcome(
    opts: Options,
    os_name: Result<String, Error>,
    secure_boot: Result<bool, Error>,
) -> Outcome {
    match gate_outcome(true, nuc_osses(), opts.no_os_check, os_name, DeviceType::IntelNuc) {
        Outcome::Found(_) => match secure_boot {
            Err(e) => Outcome::PassOn(e),
            Ok(true) => Outcome::Displayed,
            Ok(false) => Outcome::Found(DeviceType::IntelNuc),
        },
        o => o,
    }
}

#[derive(Debug)]
pub struct IntelNuc;

impl IntelNuc {
    pub fn from_config(
        opts: &Options,
        os_name: &Result<String, Error>,
        secure_boot: &Result<bool, Error>,
    ) -> (r: Result<IntelNuc, Error>)
        ensures
            matches_gate(r, nuc_outcome(*opts, *os_name, *secure_boot)),
    {
        let list = nuc_osses_exec();
        run_gate(true, list.as_slice(), opts, os_name)?;
        match secure_boot {
            Err(e) => Err(e.duplicate()),
            Ok(true) => Err(Error::displayed()),
            Ok(false) => Ok(IntelNuc),
        }
    }
}

} // verus!
