//! What stage 1 knows about the migration: the device, the configuration,
//! the image, the networks to carry over, and what it has mounted.
use vstd::prelude::*;

use crate::common::{Error, ErrorKind, Options};
use crate::migrator::common::mig_error::error_kind_of;
use crate::migrator::common::MigErrorKind;
use crate::migrator::stage1::device_impl::{slugs, device_type_of, Device};
use crate::migrator::stage1::wifi_config::{scan_spec, wifis_view, WifiConfig, WifiModel, WifiSource};
use crate::text::{str_chars, string_from_chars, trim, trim_chars};

verus! {

/// The balena configuration (`config.json`) to install: its path, the host
/// name to write into it, and whether it must be written anew.
#[derive(Debug)]
pub struct BalenaCfgJson {
    pub path: String,
    pub hostname: Option<String>,
    pub modified: bool,
}

impl BalenaCfgJson {
    pub fn new(path: &str) -> (r: BalenaCfgJson)
        ensures
            r.path@ == path@,
            r.hostname is None,
            !r.modified,
    {
        BalenaCfgJson { path: string_from_chars(str_chars(path).as_slice()), hostname: None, modified: false }
    }

    pub fn get_path(&self) -> (r: &str)
        ensures
            r@ == self.path@,
    {
        self.path.as_str()
    }

    pub fn is_modified(&self) -> (r: bool)
        ensures
            r == self.modified,
    {
        self.modified
    }

    /// Set the host name; the configuration must then be written anew.
    pub fn set_host_name(&mut self, hostname: &str)
        ensures
            final(self).path == old(self).path,
            final(self).hostname matches Some(h) && h@ == hostname@,
            final(self).modified,
    {
        self.hostname = Some(string_from_chars(str_chars(hostname).as_slice()));
        self.modified = true;
    }
}

/// Where the image comes from.
#[derive(Debug, PartialEq, Eq)]
pub enum ImageSource {
    /// The image given on the command line.
    Given(String),
    /// An image to download.
    Download,
}

#[derive(Debug)]
pub struct MigrateInfo {
    pub os_name: String,
    pub mounts: Vec<String>,
    pub to_dir: Option<String>,
    pub image_path: String,
    pub device: Device,
    pub config: BalenaCfgJson,
    pub work_dir: String,
    pub wifis: Vec<WifiConfig>,
    pub nwmgr_files: Vec<String>,
}

/// Whether networks are to be looked for: where SSIDs were given or wifis
/// were not switched off.
pub open spec fn wants_wifis(opts: Options) -> bool {
    (match opts.wifi {
        Some(w) => w@.len() > 0,
        None => false,
    }) || !opts.no_wifis
}

/// The SSIDs given, none where the option was absent.
pub open spec fn wifi_filter(opts: Options) -> Seq<String> {
    match opts.wifi {
        Some(w) => w@,
        None => Seq::<String>::empty(),
    }
}

/// The networks taken: those of the source (see `scan_spec`) where they are
/// wanted (see `wants_wifis`), none otherwise.
pub open spec fn gather_found(opts: Options, source: WifiSource) -> Result<
    Seq<WifiModel>,
    MigErrorKind,
> {
    if wants_wifis(opts) {
        scan_spec(wifi_filter(opts), source)
    } else {
        Ok(Seq::empty())
    }
}

/// No network configuration would reach balenaOS, and that is checked: no
/// NetworkManager files were given and `n` networks were found.
pub open spec fn networks_missing(opts: Options, n: nat) -> bool {
    &&& (match opts.nwmgr_cfg {
        Some(f) => f@.len() == 0,
        None => true,
    })
    &&& n == 0
    &&& !opts.no_nwmgr_check
}

/// What `m` holds when made from these inputs with a fresh configuration at
/// `config_path`: nothing mounted and no takeover directory yet, the given
/// device, image, system name and NetworkManager files, the work directory
/// given or `./`, and the trimmed host name in the configuration where the
/// name is kept.
pub open spec fn info_holds(
    m: MigrateInfo,
    opts: Options,
    device: Device,
    config_path: Seq<char>,
    image_path: Seq<char>,
    hostname: Seq<char>,
    os_name: Seq<char>,
) -> bool {
    &&& m.os_name@ == os_name
    &&& m.mounts@.len() == 0
    &&& m.to_dir is None
    &&& m.image_path@ == image_path
    &&& m.device == device
    &&& m.work_dir@ == (match opts.work_dir {
        Some(w) => w@,
        None => "./"@,
    })
    &&& m.nwmgr_files@ == (match opts.nwmgr_cfg {
        Some(n) => n@,
        None => Seq::<String>::empty(),
    })
    &&& m.config.path@ == config_path
    &&& (!opts.no_keep_name ==> m.config.modified && (m.config.hostname matches Some(h) && h@
        == trim(hostname)))
    &&& (opts.no_keep_name ==> m.config.hostname is None && !m.config.modified)
}

impl MigrateInfo {
    /// The configuration given on the command line; a `Displayed` error
    /// where none was.
    pub fn config_step(opts: &Options) -> (r: Result<BalenaCfgJson, Error>)
        ensures
            match opts.config {
                Some(p) => r matches Ok(c) && c.path@ == p@ && c.hostname is None && !c.modified,
                None => r matches Err(e) && e.kind == ErrorKind::Displayed,
            },
    {
        match opts.config() {
            Some(p) => Ok(BalenaCfgJson::new(p.as_str())),
            None => Err(Error::displayed()),
        }
    }

    /// Where the image comes from: the one given, where it exists (a
    /// `Displayed` error where it does not), else a download.
    pub fn image_step(opts: &Options, given_exists: bool) -> (r: Result<ImageSource, Error>)
        ensures
            match opts.image {
                Some(p) => if given_exists {
                    r matches Ok(ImageSource::Given(q)) && q@ == p@
                } else {
                    r matches Err(e) && e.kind == ErrorKind::Displayed
                },
                None => r matches Ok(ImageSource::Download),
            },
    {
        match opts.image() {
            Some(p) => if given_exists {
                Ok(ImageSource::Given(p.clone()))
            } else {
                Err(Error::displayed())
            },
            None => Ok(ImageSource::Download),
        }
    }

    /// Whether to look for wifi networks (see `wants_wifis`).
    pub fn wants_wifi_scan(opts: &Options) -> (r: bool)
        ensures
            r == wants_wifis(*opts),
    {
        opts.wifis().len() > 0 || !opts.no_wifis()
    }

    /// The migration's facts once the device, the configuration and the
    /// (canonical) image path are known and the networks were looked for:
    /// without migrating, an `ImageDownloaded` error ends stage 1; without any
    /// network configuration it is a `Displayed` error unless that check is
    /// off; the host name, trimmed, goes into the configuration where the name
    /// is kept.
    pub fn new(
        opts: &Options,
        device: Device,
        config: BalenaCfgJson,
        image_path: &str,
        wifis: Vec<WifiConfig>,
        hostname: &str,
        os_name: &str,
    ) -> (r: Result<MigrateInfo, Error>)
        ensures
            opts.download_only ==> (r matches Err(e) && e.kind == ErrorKind::ImageDownloaded),
            !opts.download_only && (match opts.nwmgr_cfg {
                Some(n) => n@.len() == 0,
                None => true,
            }) && wifis@.len() == 0 && !opts.no_nwmgr_check ==> (r matches Err(e) && e.kind
                == ErrorKind::Displayed),
            r matches Ok(m) ==> ({
                &&& m.os_name@ == os_name@
                &&& m.mounts@.len() == 0
                &&& m.to_dir is None
                &&& m.image_path@ == image_path@
                &&& m.device == device
                &&& m.work_dir@ == (match opts.work_dir {
                    Some(w) => w@,
                    None => "./"@,
                })
                &&& m.wifis == wifis
                &&& m.nwmgr_files@ == (match opts.nwmgr_cfg {
                    Some(n) => n@,
                    None => Seq::<String>::empty(),
                })
                &&& m.config.path == config.path
                &&& (!opts.no_keep_name ==> m.config.modified && (m.config.hostname matches Some(
                    h,
                ) && h@ == trim(hostname@)))
                &&& (opts.no_keep_name ==> m.config == config)
            }),
            !opts.download_only && !((match opts.nwmgr_cfg {
                Some(n) => n@.len() == 0,
                None => true,
            }) && wifis@.len() == 0 && !opts.no_nwmgr_check) ==> r is Ok,
    {
        if !opts.migrate() {
            return Err(Error::with_context(ErrorKind::ImageDownloaded, "Image downloaded successfully"));
        }
        let nwmgr = opts.nwmgr_cfg();
        if nwmgr.len() == 0 && wifis.len() == 0 && !opts.no_nwmgr_check() {
            return Err(Error::displayed());
        }
        let mut config = config;
        if opts.migrate_name() {
            let h = trim_chars(str_chars(hostname).as_slice());
            let hs = string_from_chars(h.as_slice());
            config.set_host_name(hs.as_str());
        }
        let mut nwmgr_files: Vec<String> = Vec::new();
        let mut i: usize = 0;
        while i < nwmgr.len()
            invariant
                i <= nwmgr@.len(),
                nwmgr_files@ == nwmgr@.take(i as int),
            decreases nwmgr@.len() - i,
        {
            nwmgr_files.push(nwmgr[i].clone());
            proof {
                assert(nwmgr@.take(i + 1) =~= nwmgr@.take(i as int).push(nwmgr@[i as int]));
            }
            i = i + 1;
        }
        proof {
            assert(nwmgr@.take(nwmgr@.len() as int) =~= nwmgr@);
        }
        Ok(
            MigrateInfo {
                os_name: string_from_chars(str_chars(os_name).as_slice()),
                mounts: Vec::new(),
                to_dir: None,
                image_path: string_from_chars(str_chars(image_path).as_slice()),
                device,
                config,
                work_dir: opts.work_dir(),
                wifis,
                nwmgr_files,
            },
        )
    }

    /// The migration's facts from the options and what was found outside:
    /// the device, the (canonical) image path, the source of the networks,
    /// the host name and the system's name. The configuration must have been
    /// given (a `Displayed` error where not); without migrating, an
    /// `ImageDownloaded` error ends stage 1 before the networks are looked
    /// at; networks are taken from the source only where SSIDs were given or
    /// wifis were not switched off (see `wants_wifis`), none otherwise; the
    /// rest is as `new` says.
    pub fn gather(
        opts: &Options,
        device: Device,
        image_path: &str,
        wifi_source: &WifiSource,
        hostname: &str,
        os_name: &str,
    ) -> (r: Result<MigrateInfo, Error>)
        ensures
            opts.config is None ==> (r matches Err(e) && e.kind == ErrorKind::Displayed),
            opts.config is Some && opts.download_only ==> (r matches Err(e) && e.kind
                == ErrorKind::ImageDownloaded),
            match opts.config {
                Some(c) => !opts.download_only ==> match gather_found(*opts, *wifi_source) {
                    Err(k) => r matches Err(e) && e.kind == error_kind_of(k),
                    Ok(ws) => if networks_missing(*opts, ws.len()) {
                        r matches Err(e) && e.kind == ErrorKind::Displayed
                    } else {
                        r matches Ok(m) && wifis_view(m.wifis@) == ws && info_holds(
                            m,
                            *opts,
                            device,
                            c@,
                            image_path@,
                            hostname@,
                            os_name@,
                        )
                    },
                },
                None => true,
            },
    {
        let config = Self::config_step(opts)?;
        if !opts.migrate() {
            return Err(Error::with_context(ErrorKind::ImageDownloaded, "Image downloaded successfully"));
        }
        let wifis = if Self::wants_wifi_scan(opts) {
            match WifiConfig::scan(opts.wifis(), wifi_source) {
                Ok(w) => w,
                Err(e) => return Err(e.as_error()),
            }
        } else {
            Vec::new()
        };
        let ghost ws = wifis_view(wifis@);
        let r = Self::new(opts, device, config, image_path, wifis, hostname, os_name);
        proof {
            if r is Ok {
                assert(wifis_view(r->Ok_0.wifis@) == ws);
            }
        }
        r
    }

    /// Whether `config.json` must be written anew before it is installed.
    pub fn update_config(&self) -> (r: bool)
        ensures
            r == self.config.modified,
    {
        self.config.is_modified()
    }

    /// Whether the device takes generic x86_64 images.
    pub fn is_x86(&self) -> (r: bool)
        ensures
            r == slugs(device_type_of(self.device)).contains("genericx86-64-ext"@),
    {
        self.device.supports_device_type("genericx86-64-ext")
    }

    pub fn set_to_dir(&mut self, to_dir: &str)
        ensures
            final(self).to_dir matches Some(d) && d@ == to_dir@,
            final(self).os_name == old(self).os_name,
            final(self).mounts == old(self).mounts,
            final(self).image_path == old(self).image_path,
            final(self).device == old(self).device,
            final(self).config == old(self).config,
            final(self).work_dir == old(self).work_dir,
            final(self).wifis == old(self).wifis,
            final(self).nwmgr_files == old(self).nwmgr_files,
    {
        self.to_dir = Some(string_from_chars(str_chars(to_dir).as_slice()));
    }

    pub fn get_to_dir(&self) -> (r: &Option<String>)
        ensures
            *r == self.to_dir,
    {
        &self.to_dir
    }

    pub fn get_image_path(&self) -> (r: &str)
        ensures
            r@ == self.image_path@,
    {
        self.image_path.as_str()
    }

    pub fn get_balena_cfg(&self) -> (r: &BalenaCfgJson)
        ensures
            *r == self.config,
    {
        &self.config
    }

    /// Note a mount, to be undone on cleanup.
    pub fn add_mount(&mut self, mount: &str)
        ensures
            final(self).mounts@.len() == old(self).mounts@.len() + 1,
            final(self).mounts@.last()@ == mount@,
            final(self).mounts@.drop_last() == old(self).mounts@,
            final(self).to_dir == old(self).to_dir,
    {
        self.mounts.push(string_from_chars(str_chars(mount).as_slice()));
        assert(self.mounts@.drop_last() =~= old(self).mounts@);
    }

    pub fn get_mounts(&self) -> (r: &Vec<String>)
        ensures
            *r == self.mounts,
    {
        &self.mounts
    }

    pub fn get_nwmgr_files(&self) -> (r: &Vec<String>)
        ensures
            *r == self.nwmgr_files,
    {
        &self.nwmgr_files
    }

    pub fn get_wifis(&self) -> (r: &Vec<WifiConfig>)
        ensures
            *r == self.wifis,
    {
        &self.wifis
    }

    /// What cleaning up undoes: the mounts, the latest first, and then the
    /// takeover directory to remove; no mounts are left noted.
    pub fn umount_all(&mut self) -> (r: (Vec<String>, Option<String>))
        ensures
            r.0@ == old(self).mounts@.reverse(),
            r.1 == old(self).to_dir,
            final(self).mounts@.len() == 0,
            final(self).to_dir == old(self).to_dir,
    {
        let mut out: Vec<String> = Vec::new();
        let ghost orig = self.mounts@;
        while self.mounts.len() > 0
            invariant
                orig == self.mounts@ + out@.reverse(),
                self.to_dir == old(self).to_dir,
                orig == old(self).mounts@,
            decreases self.mounts@.len(),
        {
            let ghost before = self.mounts@;
            let ghost out_before = out@;
            let m = self.mounts.pop().unwrap();
            out.push(m);
            proof {
                assert(before == self.mounts@.push(m));
                assert(out@.reverse() =~= seq![m] + out_before.reverse());
                assert(orig =~= self.mounts@ + out@.reverse());
            }
        }
        proof {
            assert(out@.reverse().reverse() =~= out@);
            assert(orig.reverse() =~= out@);
        }
        let to_dir = match &self.to_dir {
            Some(d) => Some(d.clone()),
            None => None,
        };
        (out, to_dir)
    }
}

} // verus!
