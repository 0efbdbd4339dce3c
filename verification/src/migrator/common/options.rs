//! Command line options of the migrator.
use vstd::prelude::*;

pub use crate::common::options::DEFAULT_CHECK_TIMEOUT;

verus! {

broadcast use vstd::string::group_string_axioms;

/// The options given on the command line; paths are held as text.
#[derive(Debug, Clone)]
pub struct Options {
    pub work_dir: Option<String>,
    pub image: Option<String>,
    pub version: Option<String>,
    pub config: Option<String>,
    pub pretend: bool,
    pub debug: bool,
    pub trace: bool,
    pub stage2: bool,
    pub init: bool,
    pub no_cleanup: bool,
    pub no_os_check: bool,
    pub no_api_check: bool,
    pub no_vpn_check: bool,
    pub no_nwmgr_check: bool,
    pub no_keep_name: bool,
    pub check_timeout: Option<u64>,
    pub log_to: Option<String>,
    pub flash_to: Option<String>,
    pub no_wifis: bool,
    pub wifi: Option<Vec<String>>,
    pub nwmgr_cfg: Option<Vec<String>>,
}

impl Options {
    pub fn is_stage2(&self) -> (r: bool)
        ensures
            r == self.stage2,
    {
        self.stage2
    }

    pub fn is_init(&self) -> (r: bool)
        ensures
            r == self.init,
    {
        self.init
    }

    /// The working directory, `./` where none was given.
    pub fn get_work_dir(&self) -> (r: String)
        ensures
            r@ == match self.work_dir {
                Some(w) => w@,
                None => "./"@,
            },
    {
        if let Some(work_dir) = &self.work_dir {
            work_dir.as_str().to_string()
        } else {
            "./".to_string()
        }
    }

    pub fn get_image(&self) -> (r: &Option<String>)
        ensures
            *r == self.image,
    {
        &self.image
    }

    /// The image version to download, `default` where none was given.
    pub fn get_version(&self) -> (r: &str)
        ensures
            r@ == match self.version {
                Some(v) => v@,
                None => "default"@,
            },
    {
        if let Some(version) = &self.version {
            version.as_str()
        } else {
            "default"
        }
    }

    pub fn get_config(&self) -> (r: &Option<String>)
        ensures
            *r == self.config,
    {
        &self.config
    }

    pub fn is_pretend(&self) -> (r: bool)
        ensures
            r == self.pretend,
    {
        self.pretend
    }

    pub fn is_debug(&self) -> (r: bool)
        ensures
            r == self.debug,
    {
        self.debug
    }

    pub fn is_trace(&self) -> (r: bool)
        ensures
            r == self.trace,
    {
        self.trace
    }

    pub fn is_os_check(&self) -> (r: bool)
        ensures
            r == !self.no_os_check,
    {
        !self.no_os_check
    }

    pub fn is_api_check(&self) -> (r: bool)
        ensures
            r == !self.no_api_check,
    {
        !self.no_api_check
    }

    pub fn is_vpn_check(&self) -> (r: bool)
        ensures
            r == !self.no_vpn_check,
    {
        !self.no_vpn_check
    }

    pub fn get_log_to(&self) -> (r: &Option<String>)
        ensures
            *r == self.log_to,
    {
        &self.log_to
    }

    pub fn get_flash_to(&self) -> (r: &Option<String>)
        ensures
            *r == self.flash_to,
    {
        &self.flash_to
    }

    /// The check timeout in seconds, `DEFAULT_CHECK_TIMEOUT` where none was given.
    pub fn get_check_timeout(&self) -> (r: u64)
        ensures
            r == match self.check_timeout {
                Some(t) => t,
                None => DEFAULT_CHECK_TIMEOUT,
            },
    {
        if let Some(timeout) = self.check_timeout {
            timeout
        } else {
            DEFAULT_CHECK_TIMEOUT
        }
    }

    pub fn is_no_wifis(&self) -> (r: bool)
        ensures
            r == self.no_wifis,
    {
        self.no_wifis
    }

    /// The SSIDs given, none where the option was absent.
    pub fn get_wifis(&self) -> (r: &[String])
        ensures
            r@ == match self.wifi {
                Some(w) => w@,
                None => Seq::<String>::empty(),
            },
    {
        if let Some(wifis) = &self.wifi {
            wifis.as_slice()
        } else {
            &[]
        }
    }

    /// The network manager files given, none where the option was absent.
    pub fn get_nwmgr_cfg(&self) -> (r: &[String])
        ensures
            r@ == match self.nwmgr_cfg {
                Some(w) => w@,
                None => Seq::<String>::empty(),
            },
    {
        if let Some(nwmgr_cfgs) = &self.nwmgr_cfg {
            nwmgr_cfgs.as_slice()
        } else {
            &[]
        }
    }

    pub fn is_no_nwmgr_check(&self) -> (r: bool)
        ensures
            r == self.no_nwmgr_check,
    {
        self.no_nwmgr_check
    }

    pub fn is_migrate_name(&self) -> (r: bool)
        ensures
            r == !self.no_keep_name,
    {
        !self.no_keep_name
    }

    pub fn is_cleanup(&self) -> (r: bool)
        ensures
            r == !self.no_cleanup,
    {
        !self.no_cleanup
    }
}

} // verus!
