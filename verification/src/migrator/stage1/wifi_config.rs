//! The wifi networks that the device knows, and the NetworkManager files
//! that carry them over to balenaOS.
use vstd::prelude::*;

pub mod nwmgr_parser;
pub mod wpa_parser;

use crate::common::options::opt_view;
use crate::common::{path_append, path_append_spec, Error, ErrorKind};
use crate::migrator::common::mig_error::{MigError, MigErrorKind};
use crate::text::{
    decimal, push_chars, push_str, slice_to_vec, str_chars, string_from_chars, u64_to_decimal,
};

verus! {

/// A network read from `wpa_supplicant`'s configuration.
#[derive(Debug)]
pub struct Params {
    pub ssid: String,
    pub psk: Option<String>,
}

/// A network of a NetworkManager connection file.
#[derive(Debug)]
pub struct NwmgrFile {
    pub ssid: String,
    pub file: String,
}

/// A wifi network to carry over.
#[derive(Debug)]
pub enum WifiConfig {
    Params(Params),
    NwMgrFile(NwmgrFile),
}

pub enum WifiModel {
    Params { ssid: Seq<char>, psk: Option<Seq<char>> },
    File { ssid: Seq<char>, file: Seq<char> },
}

impl View for WifiConfig {
    type V = WifiModel;

    open spec fn view(&self) -> WifiModel {
        match self {
            WifiConfig::Params(p) => WifiModel::Params { ssid: p.ssid@, psk: opt_view(p.psk) },
            WifiConfig::NwMgrFile(f) => WifiModel::File { ssid: f.ssid@, file: f.file@ },
        }
    }
}

pub open spec fn wifis_view(v: Seq<WifiConfig>) -> Seq<WifiModel> {
    v.map_values(|w: WifiConfig| w@)
}

pub open spec fn ssid_of(w: WifiModel) -> Seq<char> {
    match w {
        WifiModel::Params { ssid, .. } => ssid,
        WifiModel::File { ssid, .. } => ssid,
    }
}

/// Where the networks are read from.
#[derive(Debug)]
pub enum WifiSource {
    /// NetworkManager's connection files, each with its path and text.
    NetworkManager(Vec<(String, String)>),
    /// The text of `wpa_supplicant`'s configuration file.
    WpaSupplicant(String),
    /// connman's configuration, which this library does not read.
    ConnMgr,
    /// No supported network manager.
    Nothing,
}

/// The kinds of sources, in the order they are tried.
#[derive(Debug, Clone, Copy, PartialEq, Eq, Structural)]
pub enum WifiSourceKind {
    NetworkManager,
    WpaSupplicant,
    ConnMgr,
    Nothing,
}

/// The source to read: NetworkManager where it runs and has its
/// configuration directory, else `wpa_supplicant` where it runs and has its
/// configuration file, else connman's directory where `wpa_supplicant` runs.
pub fn scan_source(
    nwmgr_running: bool,
    nwmgr_dir_exists: bool,
    wpa_running: bool,
    wpa_file_exists: bool,
    connmgr_dir_exists: bool,
) -> (r: WifiSourceKind)
    ensures
        r == (if nwmgr_running && nwmgr_dir_exists {
            WifiSourceKind::NetworkManager
        } else if wpa_running && wpa_file_exists {
            WifiSourceKind::WpaSupplicant
        } else if wpa_running && connmgr_dir_exists {
            WifiSourceKind::ConnMgr
        } else {
            WifiSourceKind::Nothing
        }),
{
    if nwmgr_running && nwmgr_dir_exists {
        WifiSourceKind::NetworkManager
    } else if wpa_running && wpa_file_exists {
        WifiSourceKind::WpaSupplicant
    } else if wpa_running && connmgr_dir_exists {
        WifiSourceKind::ConnMgr
    } else {
        WifiSourceKind::Nothing
    }
}

/// What `WifiConfig::scan` finds in a source with a filter: the networks of
/// the source that pass it, or the kind of error.
pub open spec fn scan_spec(filter: Seq<String>, source: WifiSource) -> Result<Seq<WifiModel>, MigErrorKind> {
    match source {
        WifiSource::NetworkManager(files) => Ok(
            nwmgr_parser::nwmgr_files_spec(files_view(files@), filter_view(filter)),
        ),
        WifiSource::WpaSupplicant(text) => Ok(wpa_parser::wpa_spec(text@, filter_view(filter))),
        WifiSource::ConnMgr => Err(MigErrorKind::NotImpl),
        WifiSource::Nothing => Ok(Seq::empty()),
    }
}

pub open spec fn files_view(v: Seq<(String, String)>) -> Seq<(Seq<char>, Seq<char>)> {
    v.map_values(|f: (String, String)| (f.0@, f.1@))
}

pub open spec fn filter_view(v: Seq<String>) -> Seq<Seq<char>> {
    v.map_values(|s: String| s@)
}

// ---------------------------------------------------------------------------
// Replacing text
// ---------------------------------------------------------------------------

/// `str::replace`: every occurrence of `p`, from left to right and not
/// overlapping, replaced by `r`.
pub open spec fn replace_all(s: Seq<char>, p: Seq<char>, r: Seq<char>) -> Seq<char>
    decreases s.len(),
{
    if s.len() == 0 || p.len() == 0 {
        s
    } else if p.len() <= s.len() && s.take(p.len() as int) == p {
        r + replace_all(s.skip(p.len() as int), p, r)
    } else {
        seq![s[0]] + replace_all(s.drop_first(), p, r)
    }
}

/// Replace every occurrence of `p` by `r` (see `replace_all`).
pub fn replace_all_exec(s: &[char], p: &[char], r: &[char]) -> (out: Vec<char>)
    ensures
        out@ == replace_all(s@, p@, r@),
{
    let mut out: Vec<char> = Vec::new();
    if p.len() == 0 {
        push_chars(&mut out, s);
        assert(out@ =~= s@);
        return out;
    }
    let mut i: usize = 0;
    proof {
        assert(s@.skip(0) =~= s@);
    }
    while i < s.len()
        invariant
            i <= s@.len(),
            p@.len() > 0,
            out@ + replace_all(s@.skip(i as int), p@, r@) == replace_all(s@, p@, r@),
        decreases s@.len() - i,
    {
        let ghost t = s@.skip(i as int);
        let mut m = p.len() <= s.len() - i;
        if m {
            let w = slice_to_vec(s, i, i + p.len());
            m = crate::text::chars_eq(w.as_slice(), p);
            proof {
                assert(w@ =~= t.take(p@.len() as int));
            }
        }
        let ghost before = out@;
        if m {
            push_chars(&mut out, r);
            proof {
                assert(t.skip(p@.len() as int) =~= s@.skip(i + p@.len()));
                assert(before + r@ + replace_all(s@.skip(i + p@.len()), p@, r@) =~= before + (r@
                    + replace_all(t.skip(p@.len() as int), p@, r@)));
            }
            i = i + p.len();
        } else {
            out.push(s[i]);
            proof {
                assert(t[0] == s@[i as int]);
                assert(t.drop_first() =~= s@.skip(i + 1));
                assert(before.push(s@[i as int]) + replace_all(s@.skip(i + 1), p@, r@) =~= before
                    + (seq![t[0]] + replace_all(t.drop_first(), p@, r@)));
            }
            i = i + 1;
        }
    }
    proof {
        assert(s@.skip(i as int).len() == 0);
        assert(out@ + replace_all(s@.skip(i as int), p@, r@) =~= out@);
    }
    out
}

// ---------------------------------------------------------------------------
// NetworkManager files
// ---------------------------------------------------------------------------

pub open spec fn balena_file_tag() -> Seq<char> {
    "## created by balena-migrate"@
}

/// The connection file for a network given by name and password.
pub open spec fn nwmgr_template() -> Seq<char> {
    "## created by balena-migrate\n[connection]\nid=__FILE_NAME__\ntype=wifi\n\n[wifi]\nhidden=true\nmode=infrastructure\nssid=__SSID__\n\n[ipv4]\nmethod=auto\n\n[ipv6]\naddr-gen-mode=stable-privacy\nmethod=auto\n"@
}

/// The security section of such a file, for a network with a password.
pub open spec fn nwmgr_psk_template() -> Seq<char> {
    "[wifi-security]\nauth-alg=open\nkey-mgmt=wpa-psk\npsk=__PSK__\n"@
}

/// Text up to `k` that holds no first character of `p` is kept as it is.
pub proof fn lemma_replace_all_keeps(s: Seq<char>, p: Seq<char>, r: Seq<char>, k: int)
    requires
        p.len() > 0,
        0 <= k <= s.len(),
        forall|i: int| 0 <= i < k ==> #[trigger] s[i] != p[0],
    ensures
        replace_all(s, p, r) == s.take(k) + replace_all(s.skip(k), p, r),
    decreases k,
{
    if k == 0 {
        assert(s.take(0) =~= Seq::<char>::empty());
        assert(s.skip(0) =~= s);
    } else {
        if p.len() <= s.len() && s.take(p.len() as int) == p {
            assert(s.take(p.len() as int)[0] == s[0]);
        }
        let t = s.drop_first();
        assert forall|i: int| 0 <= i < k - 1 implies #[trigger] t[i] != p[0] by {
            assert(t[i] == s[i + 1]);
        }
        lemma_replace_all_keeps(t, p, r, k - 1);
        assert(t.skip(k - 1) =~= s.skip(k));
        assert(seq![s[0]] + t.take(k - 1) =~= s.take(k));
    }
}

/// An occurrence of `p` at the start is replaced by `r`.
pub proof fn lemma_replace_all_at_start(rest: Seq<char>, p: Seq<char>, r: Seq<char>)
    requires
        p.len() > 0,
    ensures
        replace_all(p + rest, p, r) == r + replace_all(rest, p, r),
{
    let s = p + rest;
    assert(s.take(p.len() as int) =~= p);
    assert(s.skip(p.len() as int) =~= rest);
}

/// The security section of the connection file for a network with password
/// `psk`: the line `psk=` is followed by the password exactly, whatever it
/// holds.
pub open spec fn psk_section(psk: Seq<char>) -> Seq<char> {
    "[wifi-security]\nauth-alg=open\nkey-mgmt=wpa-psk\npsk="@ + psk + "\n"@
}

/// The connection file for a network given by name and password is the file
/// for the same network without a password, followed by the security section
/// whose `psk=` line holds the password exactly (see `psk_section`); without
/// a password there is no security section.
pub proof fn law_nwmgr_content_psk(ssid: Seq<char>, psk: Seq<char>, name: Seq<char>, file_text: Seq<char>)
    ensures
        nwmgr_content_spec(WifiModel::Params { ssid, psk: Some(psk) }, name, file_text) matches Ok(
            t,
        ) && nwmgr_content_spec(WifiModel::Params { ssid, psk: None }, name, file_text) matches Ok(
            u,
        ) && t == u + psk_section(psk),
{
    reveal_strlit("[wifi-security]\nauth-alg=open\nkey-mgmt=wpa-psk\npsk=");
    reveal_strlit("__PSK__");
    reveal_strlit("\n");
    reveal_strlit("[wifi-security]\nauth-alg=open\nkey-mgmt=wpa-psk\npsk=__PSK__\n");
    let head = "[wifi-security]\nauth-alg=open\nkey-mgmt=wpa-psk\npsk="@;
    let pat = "__PSK__"@;
    let tail = "\n"@;
    let tmpl = nwmgr_psk_template();
    assert(tmpl =~= head + (pat + tail));
    assert forall|i: int| 0 <= i < head.len() implies #[trigger] tmpl[i] != pat[0] by {
        assert(tmpl[i] == head[i]);
    }
    lemma_replace_all_keeps(tmpl, pat, psk, head.len() as int);
    assert(tmpl.take(head.len() as int) =~= head);
    assert(tmpl.skip(head.len() as int) =~= pat + tail);
    lemma_replace_all_at_start(tail, pat, psk);
    assert forall|i: int| 0 <= i < tail.len() implies #[trigger] tail[i] != pat[0] by {}
    lemma_replace_all_keeps(tail, pat, psk, tail.len() as int);
    assert(tail.take(tail.len() as int) =~= tail);
    assert(tail.skip(tail.len() as int) =~= Seq::<char>::empty());
    assert(replace_all(Seq::<char>::empty(), pat, psk) == Seq::<char>::empty());
    assert(replace_all(tmpl, pat, psk) =~= psk_section(psk));
    let u = replace_all(replace_all(nwmgr_template(), "__SSID__"@, ssid), "__FILE_NAME__"@, name);
    assert(u + Seq::<char>::empty() =~= u);
}

/// Text up to `k` at no position of which the first three characters of `p`
/// stand is kept as it is.
pub proof fn lemma_replace_all_keeps3(s: Seq<char>, p: Seq<char>, r: Seq<char>, k: int)
    requires
        p.len() >= 3,
        0 <= k <= s.len(),
        forall|i: int|
            0 <= i < k && i + 2 < s.len() ==> #[trigger] s[i] != p[0] || s[i + 1] != p[1] || s[i
                + 2] != p[2],
    ensures
        replace_all(s, p, r) == s.take(k) + replace_all(s.skip(k), p, r),
    decreases k,
{
    if k == 0 {
        assert(s.take(0) =~= Seq::<char>::empty());
        assert(s.skip(0) =~= s);
    } else {
        if p.len() <= s.len() && s.take(p.len() as int) == p {
            assert(s.take(p.len() as int)[0] == s[0]);
            assert(s.take(p.len() as int)[1] == s[1]);
            assert(s.take(p.len() as int)[2] == s[2]);
        }
        let t = s.drop_first();
        assert forall|i: int|
            0 <= i < k - 1 && i + 2 < t.len() implies #[trigger] t[i] != p[0] || t[i + 1] != p[1]
            || t[i + 2] != p[2] by {
            assert(t[i] == s[i + 1]);
            assert(t[i + 1] == s[i + 2]);
            assert(t[i + 2] == s[i + 3]);
        }
        lemma_replace_all_keeps3(t, p, r, k - 1);
        assert(t.skip(k - 1) =~= s.skip(k));
        assert(seq![s[0]] + t.take(k - 1) =~= s.take(k));
    }
}

/// The connection file for a network given by name and password, where the
/// network's name and the file name hold no `_`: the file name on the `id=`
/// line and the network's name on the `ssid=` line, each exactly, in the
/// fixed template, followed by the security section where there is a
/// password (see `law_nwmgr_content_psk`).
pub proof fn law_nwmgr_content_names(ssid: Seq<char>, name: Seq<char>, file_text: Seq<char>)
    requires
        forall|i: int| 0 <= i < ssid.len() ==> #[trigger] ssid[i] != '_',
        forall|i: int| 0 <= i < name.len() ==> #[trigger] name[i] != '_',
    ensures
        nwmgr_content_spec(WifiModel::Params { ssid, psk: None }, name, file_text) == Ok::<
            Seq<char>,
            ErrorKind,
        >(
            "## created by balena-migrate\n[connection]\nid="@ + name
                + "\ntype=wifi\n\n[wifi]\nhidden=true\nmode=infrastructure\nssid="@ + ssid
                + "\n\n[ipv4]\nmethod=auto\n\n[ipv6]\naddr-gen-mode=stable-privacy\nmethod=auto\n"@,
        ),
{
    let a = "## created by balena-migrate\n[connection]\nid="@;
    let fnp = "__FILE_NAME__"@;
    let b = "\ntype=wifi\n\n[wifi]\nhidden=true\nmode=infrastructure\nssid="@;
    let sp = "__SSID__"@;
    let c = "\n\n[ipv4]\nmethod=auto\n\n[ipv6]\naddr-gen-mode=stable-privacy\nmethod=auto\n"@;
    reveal_strlit("## created by balena-migrate\n[connection]\nid=");
    reveal_strlit("__FILE_NAME__");
    reveal_strlit("\ntype=wifi\n\n[wifi]\nhidden=true\nmode=infrastructure\nssid=");
    reveal_strlit("__SSID__");
    reveal_strlit("\n\n[ipv4]\nmethod=auto\n\n[ipv6]\naddr-gen-mode=stable-privacy\nmethod=auto\n");
    reveal_strlit(
        "## created by balena-migrate\n[connection]\nid=__FILE_NAME__\ntype=wifi\n\n[wifi]\nhidden=true\nmode=infrastructure\nssid=__SSID__\n\n[ipv4]\nmethod=auto\n\n[ipv6]\naddr-gen-mode=stable-privacy\nmethod=auto\n",
    );
    let t = nwmgr_template();
    assert(t =~= a + fnp + b + sp + c);
    // first the network's name
    let k1: int = (a.len() + fnp.len() + b.len()) as int;
    assert forall|i: int| 0 <= i < k1 && i + 2 < t.len() implies #[trigger] t[i] != sp[0] || t[i + 1] != sp[1]
        || t[i + 2] != sp[2] by {
        if i < a.len() {
            assert(t[i] == a[i]);
        } else if i < a.len() + fnp.len() {
            assert(t[i] == fnp[i - a.len()]);
            if i + 1 < a.len() + fnp.len() {
                assert(t[i + 1] == fnp[i + 1 - a.len()]);
            } else {
                assert(t[i + 1] == b[0]);
            }
            if i + 2 < a.len() + fnp.len() {
                assert(t[i + 2] == fnp[i + 2 - a.len()]);
            } else {
                assert(t[i + 2] == b[i + 2 - a.len() - fnp.len()]);
            }
        } else {
            assert(t[i] == b[i - a.len() - fnp.len()]);
        }
    }
    lemma_replace_all_keeps3(t, sp, ssid, k1);
    assert(t.take(k1) =~= a + fnp + b);
    assert(t.skip(k1) =~= sp + c);
    lemma_replace_all_at_start(c, sp, ssid);
    assert forall|i: int| 0 <= i < c.len() implies #[trigger] c[i] != sp[0] by {}
    lemma_replace_all_keeps(c, sp, ssid, c.len() as int);
    assert(c.take(c.len() as int) =~= c);
    assert(c.skip(c.len() as int) =~= Seq::<char>::empty());
    let t1 = a + fnp + b + ssid + c;
    assert(replace_all(t, sp, ssid) =~= t1);
    // then the file name
    assert forall|i: int| 0 <= i < a.len() implies #[trigger] t1[i] != fnp[0] by {
        assert(t1[i] == a[i]);
    }
    lemma_replace_all_keeps(t1, fnp, name, a.len() as int);
    assert(t1.take(a.len() as int) =~= a);
    let rest = b + ssid + c;
    assert(t1.skip(a.len() as int) =~= fnp + rest);
    lemma_replace_all_at_start(rest, fnp, name);
    assert forall|i: int| 0 <= i < rest.len() implies #[trigger] rest[i] != fnp[0] by {
        if i < b.len() {
            assert(rest[i] == b[i]);
        } else if i < b.len() + ssid.len() {
            assert(rest[i] == ssid[i - b.len()]);
        } else {
            assert(rest[i] == c[i - b.len() - ssid.len()]);
        }
    }
    lemma_replace_all_keeps(rest, fnp, name, rest.len() as int);
    assert(rest.take(rest.len() as int) =~= rest);
    assert(rest.skip(rest.len() as int) =~= Seq::<char>::empty());
    let u = replace_all(t1, fnp, name);
    assert(u =~= a + name + b + ssid + c);
    assert(u + Seq::<char>::empty() =~= u);
}

/// The name of the connection file for network number `index`.
pub open spec fn nwmgr_file_name(index: u64) -> Seq<char> {
    "resin-wifi-"@ + decimal(index as nat)
}

/// The text of the connection file named `name` for a network: for a network
/// given by name and password, the template with the name (and, after it,
/// the file name) put in, followed by the security section where there is a
/// password; for a NetworkManager file, the balena tag line and the file's
/// text with its connection id replaced by the file name (see
/// `replace_id_spec`).
pub open spec fn nwmgr_content_spec(w: WifiModel, name: Seq<char>, file_text: Seq<char>) -> Result<
    Seq<char>,
    ErrorKind,
> {
    match w {
        WifiModel::Params { ssid, psk } => Ok(
            replace_all(replace_all(nwmgr_template(), "__SSID__"@, ssid), "__FILE_NAME__"@, name)
                + match psk {
                Some(p) => replace_all(nwmgr_psk_template(), "__PSK__"@, p),
                None => seq![],
            },
        ),
        WifiModel::File { .. } => match nwmgr_parser::replace_id_spec(file_text, name) {
            Ok(t) => Ok(balena_file_tag() + seq!['\n'] + t),
            Err(k) => Err(k),
        },
    }
}

impl WifiConfig {
    pub fn get_ssid(&self) -> (r: &str)
        ensures
            r@ == ssid_of(self@),
    {
        match self {
            WifiConfig::NwMgrFile(file) => file.ssid.as_str(),
            WifiConfig::Params(params) => params.ssid.as_str(),
        }
    }

    /// The path of the connection file for network number `index` in the
    /// directory `base_path`.
    pub fn nwmgr_file_path(base_path: &str, index: u64) -> (r: String)
        ensures
            r@ == path_append_spec(base_path@, nwmgr_file_name(index)),
    {
        let mut n: Vec<char> = Vec::new();
        push_str(&mut n, "resin-wifi-");
        let d = u64_to_decimal(index);
        push_chars(&mut n, d.as_slice());
        let name = string_from_chars(n.as_slice());
        path_append(base_path, name.as_str())
    }

    /// The text of the connection file named `name` (see
    /// `nwmgr_content_spec`); `file_text` is the text of a NetworkManager
    /// file, unused for other networks.
    pub fn nwmgr_content(&self, name: &str, file_text: &str) -> (r: Result<String, Error>)
        ensures
            match nwmgr_content_spec(self@, name@, file_text@) {
                Ok(t) => r matches Ok(s) && s@ == t,
                Err(k) => r matches Err(e) && e.kind == k,
            },
    {
        let nm = str_chars(name);
        match self {
            WifiConfig::Params(config) => {
                let t = str_chars(
                    "## created by balena-migrate\n[connection]\nid=__FILE_NAME__\ntype=wifi\n\n[wifi]\nhidden=true\nmode=infrastructure\nssid=__SSID__\n\n[ipv4]\nmethod=auto\n\n[ipv6]\naddr-gen-mode=stable-privacy\nmethod=auto\n",
                );
                let ssid = str_chars(config.ssid.as_str());
                let c1 = replace_all_exec(t.as_slice(), str_chars("__SSID__").as_slice(), ssid.as_slice());
                let mut c2 = replace_all_exec(
                    c1.as_slice(),
                    str_chars("__FILE_NAME__").as_slice(),
                    nm.as_slice(),
                );
                if let Some(psk) = &config.psk {
                    let pt = str_chars("[wifi-security]\nauth-alg=open\nkey-mgmt=wpa-psk\npsk=__PSK__\n");
                    let pc = str_chars(psk.as_str());
                    let p2 = replace_all_exec(pt.as_slice(), str_chars("__PSK__").as_slice(), pc.as_slice());
                    push_chars(&mut c2, p2.as_slice());
                }
                Ok(string_from_chars(c2.as_slice()))
            },
            WifiConfig::NwMgrFile(_) => {
                let replaced = nwmgr_parser::replace_nwmgr_id(file_text, name)?;
                let mut v: Vec<char> = Vec::new();
                push_str(&mut v, "## created by balena-migrate");
                v.push('\n');
                let rc = str_chars(replaced.as_str());
                push_chars(&mut v, rc.as_slice());
                Ok(string_from_chars(v.as_slice()))
            },
        }
    }

    /// The networks of a source, those whose name passes the filter (see
    /// `nwmgr_parser::nwmgr_files_spec` and `wpa_parser::wpa_spec`); connman's
    /// configuration is a `NotImpl` error.
    pub fn scan(ssid_filter: &[String], source: &WifiSource) -> (r: Result<Vec<WifiConfig>, MigError>)
        ensures
            match source {
                WifiSource::NetworkManager(files) => r matches Ok(v) && wifis_view(v@)
                    == nwmgr_parser::nwmgr_files_spec(files_view(files@), filter_view(ssid_filter@)),
                WifiSource::WpaSupplicant(text) => r matches Ok(v) && wifis_view(v@)
                    == wpa_parser::wpa_spec(text@, filter_view(ssid_filter@)),
                WifiSource::ConnMgr => r matches Err(e) && e.inner.kind == MigErrorKind::NotImpl,
                WifiSource::Nothing => r matches Ok(v) && v@.len() == 0,
            },
    {
        match source {
            WifiSource::NetworkManager(files) => Ok(
                nwmgr_parser::parse_nwmgr_config(ssid_filter, files.as_slice()),
            ),
            WifiSource::WpaSupplicant(text) => {
                let mut parser = wpa_parser::WpaParser::new(ssid_filter);
                parser.parse_file(text.as_str())
            },
            WifiSource::ConnMgr => Err(
                MigError::from_remark(
                    MigErrorKind::NotImpl,
                    "connman configurations are not read by this library",
                ),
            ),
            WifiSource::Nothing => Ok(Vec::new()),
        }
    }
}


/// Each network gets a connection file of its own: different indexes give
/// different file names.
pub proof fn law_wifi_file_names_distinct(a: u64, b: u64)
    requires
        a != b,
    ensures
        nwmgr_file_name(a) != nwmgr_file_name(b),
{
    crate::text::lemma_decimal_digits(a as nat);
    crate::text::lemma_decimal_digits(b as nat);
    let k = "resin-wifi-"@.len() as int;
    if nwmgr_file_name(a) == nwmgr_file_name(b) {
        assert(nwmgr_file_name(a).skip(k) =~= decimal(a as nat));
        assert(nwmgr_file_name(b).skip(k) =~= decimal(b as nat));
    }
}

} // verus!
