//! Command line options of the takeover program.
use vstd::prelude::*;

verus! {

broadcast use vstd::string::group_string_axioms;

/// Seconds to wait for the API and VPN checks when none is given.
pub const DEFAULT_CHECK_TIMEOUT: u64 = 10;

/// Log verbosity, from the least to the most verbose.
#[derive(Debug, Clone, Copy, PartialEq, Eq, Structural)]
pub enum LogLevel {
    Error,
    Warn,
    Info,
    Debug,
    Trace,
}

/// A level's name as the logger prints it.
pub open spec fn level_name(l: LogLevel) -> Seq<char> {
    match l {
        LogLevel::Error => "ERROR"@,
        LogLevel::Warn => "WARN"@,
        LogLevel::Info => "INFO"@,
        LogLevel::Debug => "DEBUG"@,
        LogLevel::Trace => "TRACE"@,
    }
}

impl LogLevel {
    /// The level's name as the logger prints it.
    pub fn as_str(&self) -> (s: &'static str)
        ensures
            s@ == level_name(*self),
    {
        match self {
            LogLevel::Error => "ERROR",
            LogLevel::Warn => "WARN",
            LogLevel::Info => "INFO",
            LogLevel::Debug => "DEBUG",
            LogLevel::Trace => "TRACE",
        }
    }
}

/// The options given on the command line; paths are held as text.
#[derive(Debug, Clone)]
pub struct Options {
    pub work_dir: Option<String>,
    pub image: Option<String>,
    pub version: Option<String>,
    pub config: Option<String>,
    pub log_level: LogLevel,
    pub log_file: Option<String>,
    pub backup_cfg: Option<String>,
    pub s2_log_level: Option<LogLevel>,
    pub no_ack: bool,
    pub pretend: bool,
    pub stage2: bool,
    pub tar_internal: bool,
    pub no_cleanup: bool,
    pub no_os_check: bool,
    pub no_dt_check: bool,
    pub no_api_check: bool,
    pub no_vpn_check: bool,
    pub no_efi_setup: bool,
    pub no_nwmgr_check: bool,
    pub no_keep_name: bool,
    pub download_only: bool,
    pub check_timeout: Option<u64>,
    pub log_to: Option<String>,
    pub flash_to: Option<String>,
    pub no_wifis: bool,
    pub wifi: Option<Vec<String>>,
    pub nwmgr_cfg: Option<Vec<String>>,
    pub change_dt_to: Option<String>,
}

/// The text of an optional string, if there is one.
pub open spec fn opt_view(o: Option<String>) -> Option<Seq<char>> {
    match o {
        Some(s) => Some(s@),
        None => None,
    }
}

impl Options {
    pub fn backup_config(&self) -> (r: Option<&str>)
        ensures
            r matches Some(p) ==> self.backup_cfg matches Some(b) && p@ == b@,
            r is None <==> self.backup_cfg is None,
    {
        if let Some(backup_cfg) = &self.backup_cfg {
            Some(backup_cfg.as_str())
        } else {
            None
        }
    }

    pub fn stage2(&self) -> (r: bool)
        ensures
            r == self.stage2,
    {
        self.stage2
    }

    pub fn tar_internal(&self) -> (r: bool)
        ensures
            r == self.tar_internal,
    {
        self.tar_internal
    }

    /// The working directory, `./` where none was given.
    pub fn work_dir(&self) -> (r: String)
        ensures
            r@ == match self.work_dir {
                Some(w) => w@,
                None => "./"@,
            },
    {
        if let Some(work_dir) = &self.work_dir {
            work_dir.as_str().to_string()
        } else {
            "./".to_string()
        }
    }

    pub fn image(&self) -> (r: &Option<String>)
        ensures
            *r == self.image,
    {
        &self.image
    }

    /// The image version to download, `default` where none was given.
    pub fn version(&self) -> (r: &str)
        ensures
            r@ == match self.version {
                Some(v) => v@,
                None => "default"@,
            },
    {
        if let Some(version) = &self.version {
            version.as_str()
        } else {
            "default"
        }
    }

    pub fn no_ack(&self) -> (r: bool)
        ensures
            r == self.no_ack,
    {
        self.no_ack
    }

    /// Whether to migrate, rather than only download the image.
    pub fn migrate(&self) -> (r: bool)
        ensures
            r == !self.download_only,
    {
        !self.download_only
    }

    pub fn config(&self) -> (r: &Option<String>)
        ensures
            *r == self.config,
    {
        &self.config
    }

    pub fn pretend(&self) -> (r: bool)
        ensures
            r == self.pretend,
    {
        self.pretend
    }

    pub fn log_file(&self) -> (r: &Option<String>)
        ensures
            *r == self.log_file,
    {
        &self.log_file
    }

    pub fn log_level(&self) -> (r: LogLevel)
        ensures
            r == self.log_level,
    {
        self.log_level
    }

    /// The stage 2 log level, the stage 1 level where none was given.
    pub fn s2_log_level(&self) -> (r: LogLevel)
        ensures
            r == match self.s2_log_level {
                Some(l) => l,
                None => self.log_level,
            },
    {
        if let Some(level) = self.s2_log_level {
            level
        } else {
            self.log_level
        }
    }

    pub fn os_check(&self) -> (r: bool)
        ensures
            r == !self.no_os_check,
    {
        !self.no_os_check
    }

    pub fn dt_check(&self) -> (r: bool)
        ensures
            r == !self.no_dt_check,
    {
        !self.no_dt_check
    }

    pub fn no_efi_setup(&self) -> (r: bool)
        ensures
            r == self.no_efi_setup,
    {
        self.no_efi_setup
    }

    pub fn api_check(&self) -> (r: bool)
        ensures
            r == !self.no_api_check,
    {
        !self.no_api_check
    }

    pub fn vpn_check(&self) -> (r: bool)
        ensures
            r == !self.no_vpn_check,
    {
        !self.no_vpn_check
    }

    pub fn log_to(&self) -> (r: &Option<String>)
        ensures
            *r == self.log_to,
    {
        &self.log_to
    }

    pub fn flash_to(&self) -> (r: &Option<String>)
        ensures
            *r == self.flash_to,
    {
        &self.flash_to
    }

    /// The check timeout in seconds, `DEFAULT_CHECK_TIMEOUT` where none was given.
    pub fn check_timeout(&self) -> (r: u64)
        ensures
            r == match self.check_timeout {
                Some(t) => t,
                None => DEFAULT_CHECK_TIMEOUT,
            },
    {
        if let Some(timeout) = self.check_timeout {
            timeout
        } else {
            DEFAULT_CHECK_TIMEOUT
        }
    }

    pub fn no_wifis(&self) -> (r: bool)
        ensures
            r == self.no_wifis,
    {
        self.no_wifis
    }

    /// The SSIDs given, none where the option was absent.
    pub fn wifis(&self) -> (r: &[String])
        ensures
            r@ == match self.wifi {
                Some(w) => w@,
                None => Seq::<String>::empty(),
            },
    {
        if let Some(wifis) = &self.wifi {
            wifis.as_slice()
        } else {
            &[]
        }
    }

    /// The network manager files given, none where the option was absent.
    pub fn nwmgr_cfg(&self) -> (r: &[String])
        ensures
            r@ == match self.nwmgr_cfg {
                Some(w) => w@,
                None => Seq::<String>::empty(),
            },
    {
        if let Some(nwmgr_cfgs) = &self.nwmgr_cfg {
            nwmgr_cfgs.as_slice()
        } else {
            &[]
        }
    }

    pub fn no_nwmgr_check(&self) -> (r: bool)
        ensures
            r == self.no_nwmgr_check,
    {
        self.no_nwmgr_check
    }

    /// Whether to keep the host name.
    pub fn migrate_name(&self) -> (r: bool)
        ensures
            r == !self.no_keep_name,
    {
        !self.no_keep_name
    }

    pub fn cleanup(&self) -> (r: bool)
        ensures
            r == !self.no_cleanup,
    {
        !self.no_cleanup
    }

    pub fn change_dt_to(&self) -> (r: &Option<String>)
        ensures
            *r == self.change_dt_to,
    {
        &self.change_dt_to
    }
}

} // verus!
