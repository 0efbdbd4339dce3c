//! NetworkManager connection files: the wifi connections among them, and
//! their connection id replaced.
use vstd::prelude::*;

use crate::common::{Error, ErrorKind};
use crate::migrator::stage1::wifi_config::wpa_parser::skip_line;
use crate::migrator::stage1::wifi_config::{
    filter_view, files_view, wifis_view, NwmgrFile, WifiConfig, WifiModel,
};
use crate::text::{
    chars_eq, find_char, find_char_from, lemma_span, lines, push_chars, push_str, slice_to_vec,
    span, span_ws_from, split_lines, str_chars, string_from_chars, view_all, ws_at,
};

verus! {

pub const NWMGR_CONFIG_DIR: &'static str = "/etc/NetworkManager/system-connections";

/// A section header `[name]`: its name, up to the first `]`.
pub open spec fn section_line(l: Seq<char>) -> Option<Seq<char>> {
    let a = ws_at(l, 0);
    let b = a + 1 + find_char(l.skip(a + 1), ']');
    if a < l.len() && l[a] == '[' && b > a + 1 && b < l.len() {
        Some(l.subrange(a + 1, b))
    } else {
        None
    }
}

/// The characters that a setting's name is made of.
pub open spec fn name_pred() -> spec_fn(char) -> bool {
    |c: char| c != '=' && c != ' ' && c != '#'
}

/// A setting `name = value` whose name begins at `i`, a position within the
/// line's leading whitespace: the name runs as far as its characters go, the
/// value begins with a non-whitespace character and runs to the end.
pub open spec fn param_at(l: Seq<char>, i: int) -> Option<(Seq<char>, Seq<char>)> {
    let e = i + span(l.skip(i), name_pred());
    let j = e + ws_at(l, e);
    let v0 = j + 1 + ws_at(l, j + 1);
    if e > i && j < l.len() && l[j] == '=' && v0 < l.len() && find_char(l.skip(v0), '\n') == l.len()
        - v0 {
        Some((l.subrange(i, e), l.skip(v0)))
    } else {
        None
    }
}

/// The setting of a line: the name begins as late in the leading whitespace
/// as a setting can be read.
pub open spec fn param_from(l: Seq<char>, i: int) -> Option<(Seq<char>, Seq<char>)>
    decreases i,
{
    if i < 0 {
        None
    } else {
        match param_at(l, i) {
            Some(p) => Some(p),
            None => if i == 0 {
                None
            } else {
                param_from(l, i - 1)
            },
        }
    }
}

pub open spec fn param_line(l: Seq<char>) -> Option<(Seq<char>, Seq<char>)> {
    param_from(l, ws_at(l, 0))
}

#[derive(Debug, Clone, Copy, PartialEq, Eq, Structural)]
pub enum NwMgrSection {
    Connection,
    Wifi,
    Other,
}

#[derive(Debug, Clone, Copy, PartialEq, Eq, Structural)]
pub enum ParseResult {
    TermFound,
    TermNoWifi,
    Continue,
}

/// The parser's state: the current section, whether the connection is a
/// wifi connection, and the network name read.
pub struct NwModel {
    pub section: NwMgrSection,
    pub is_wifi: bool,
    pub ssid: Option<Seq<char>>,
}

pub open spec fn nw_init() -> NwModel {
    NwModel { section: NwMgrSection::Other, is_wifi: false, ssid: None }
}

/// One line of a connection file: a wifi connection with its name ends the
/// file with the name found; a connection of another type ends it with
/// nothing.
pub open spec fn nw_step(st: NwModel, l: Seq<char>) -> (NwModel, ParseResult) {
    if skip_line(l) {
        (st, ParseResult::Continue)
    } else if section_line(l) is Some {
        let n = section_line(l)->0;
        (
            NwModel {
                section: if n == "connection"@ {
                    NwMgrSection::Connection
                } else if n == "wifi"@ {
                    NwMgrSection::Wifi
                } else {
                    NwMgrSection::Other
                },
                ..st
            },
            ParseResult::Continue,
        )
    } else {
        match param_line(l) {
            None => (st, ParseResult::Continue),
            Some((p, v)) => match st.section {
                NwMgrSection::Connection => if p == "type"@ {
                    if v == "wifi"@ {
                        (
                            NwModel { is_wifi: true, ..st },
                            if st.ssid is Some {
                                ParseResult::TermFound
                            } else {
                                ParseResult::Continue
                            },
                        )
                    } else {
                        (st, ParseResult::TermNoWifi)
                    }
                } else {
                    (st, ParseResult::Continue)
                },
                NwMgrSection::Wifi => if p == "ssid"@ {
                    (
                        NwModel { ssid: Some(v), ..st },
                        if st.is_wifi {
                            ParseResult::TermFound
                        } else {
                            ParseResult::Continue
                        },
                    )
                } else {
                    (st, ParseResult::Continue)
                },
                NwMgrSection::Other => (st, ParseResult::Continue),
            },
        }
    }
}

/// The network name of a connection file, where it is a wifi connection.
pub open spec fn file_fold(ls: Seq<Seq<char>>, st: NwModel) -> Option<Seq<char>>
    decreases ls.len(),
{
    if ls.len() == 0 {
        None
    } else {
        let (st2, res) = nw_step(st, ls[0]);
        match res {
            ParseResult::Continue => file_fold(ls.drop_first(), st2),
            ParseResult::TermFound => st2.ssid,
            ParseResult::TermNoWifi => None,
        }
    }
}

/// A network name passes the filter: an empty filter passes all names.
pub open spec fn valid_ssid(ssid: Seq<char>, filter: Seq<Seq<char>>) -> bool {
    filter.len() == 0 || filter.contains(ssid)
}

/// The networks of connection files, given by path and text, in order.
pub open spec fn nwmgr_files_spec(files: Seq<(Seq<char>, Seq<char>)>, filter: Seq<Seq<char>>) -> Seq<
    WifiModel,
>
    decreases files.len(),
{
    if files.len() == 0 {
        seq![]
    } else {
        let f = files.last();
        nwmgr_files_spec(files.drop_last(), filter) + match file_fold(lines(f.1), nw_init()) {
            Some(s) => if valid_ssid(s, filter) {
                seq![WifiModel::File { ssid: s, file: f.0 }]
            } else {
                seq![]
            },
            None => seq![],
        }
    }
}

/// `is_id_line`: a section header sets the section (`connection` or other,
/// and is no id line); in the connection section an `id` setting is the id
/// line.
pub open spec fn id_step(section: NwMgrSection, l: Seq<char>) -> (NwMgrSection, bool) {
    match section_line(l) {
        Some(n) => (
            if n == "connection"@ {
                NwMgrSection::Connection
            } else {
                NwMgrSection::Other
            },
            false,
        ),
        None => if section == NwMgrSection::Connection {
            (section, param_line(l) matches Some((p, _)) && p == "id"@)
        } else {
            (section, false)
        },
    }
}

/// The lines again, each followed by a line break, the first id line
/// replaced by `id=<id>`; and whether there was one. Once it is replaced the
/// sections are no longer followed.
pub open spec fn replace_fold(ls: Seq<Seq<char>>, section: NwMgrSection, found: bool, id: Seq<char>) -> (
    Seq<char>,
    bool,
)
    decreases ls.len(),
{
    if ls.len() == 0 {
        (seq![], found)
    } else if !found {
        let (sec2, is_id) = id_step(section, ls[0]);
        if is_id {
            let (t, f) = replace_fold(ls.drop_first(), sec2, true, id);
            ("id="@ + id + seq!['\n'] + t, f)
        } else {
            let (t, f) = replace_fold(ls.drop_first(), sec2, false, id);
            (ls[0] + seq!['\n'] + t, f)
        }
    } else {
        let (t, f) = replace_fold(ls.drop_first(), section, true, id);
        (ls[0] + seq!['\n'] + t, f)
    }
}

/// A connection file's text with its connection id replaced by `id`; an
/// `InvState` error where it has no id.
pub open spec fn replace_id_spec(content: Seq<char>, id: Seq<char>) -> Result<Seq<char>, ErrorKind> {
    let (t, found) = replace_fold(lines(content), NwMgrSection::Other, false, id);
    if found {
        Ok(t)
    } else {
        Err(ErrorKind::InvState)
    }
}

fn section_line_exec(l: &[char]) -> (r: Option<Vec<char>>)
    ensures
        match section_line(l@) {
            Some(n) => r matches Some(v) && v@ == n,
            None => r is None,
        },
{
    proof {
        assert(l@.skip(0) =~= l@);
    }
    let a = span_ws_from(l, 0);
    if a >= l.len() || l[a] != '[' {
        return None;
    }
    let b = find_char_from(l, a + 1, ']');
    if b <= a + 1 || b >= l.len() {
        return None;
    }
    Some(slice_to_vec(l, a + 1, b))
}

fn name_span_from(l: &[char], from: usize) -> (e: usize)
    requires
        from <= l@.len(),
    ensures
        from <= e <= l@.len(),
        e - from == span(l@.skip(from as int), name_pred()),
{
    let mut e: usize = from;
    while e < l.len() && l[e] != '=' && l[e] != ' ' && l[e] != '#'
        invariant
            from <= e <= l@.len(),
            forall|i: int| from <= i < e ==> #[trigger] name_pred()(l@[i]),
        decreases l@.len() - e,
    {
        e = e + 1;
    }
    proof {
        let t = l@.skip(from as int);
        assert forall|i: int| 0 <= i < e - from implies #[trigger] name_pred()(t[i]) by {
            assert(t[i] == l@[from + i]);
        }
        crate::text::lemma_span_unique(t, name_pred(), e - from);
    }
    e
}

fn param_at_exec(l: &[char], i: usize) -> (r: Option<(Vec<char>, Vec<char>)>)
    requires
        i <= l@.len(),
    ensures
        match param_at(l@, i as int) {
            Some((n, v)) => r matches Some((n2, v2)) && n2@ == n && v2@ == v,
            None => r is None,
        },
{
    let e = name_span_from(l, i);
    let j = span_ws_from(l, e);
    if e <= i || j >= l.len() || l[j] != '=' {
        return None;
    }
    let v0 = span_ws_from(l, j + 1);
    if v0 >= l.len() {
        return None;
    }
    let nl = find_char_from(l, v0, '\n');
    if nl != l.len() {
        return None;
    }
    let n = slice_to_vec(l, i, e);
    let v = slice_to_vec(l, v0, l.len());
    proof {
        assert(v@ =~= l@.skip(v0 as int));
    }
    Some((n, v))
}

fn param_line_exec(l: &[char]) -> (r: Option<(Vec<char>, Vec<char>)>)
    ensures
        match param_line(l@) {
            Some((n, v)) => r matches Some((n2, v2)) && n2@ == n && v2@ == v,
            None => r is None,
        },
{
    proof {
        assert(l@.skip(0) =~= l@);
    }
    let w = span_ws_from(l, 0);
    let mut i: usize = w;
    loop
        invariant
            i <= w,
            w <= l@.len(),
            w == ws_at(l@, 0),
            param_from(l@, i as int) == param_line(l@),
        decreases i,
    {
        match param_at_exec(l, i) {
            Some(p) => {
                return Some(p);
            },
            None => {},
        }
        if i == 0 {
            return None;
        }
        i = i - 1;
    }
}

/// The parser of a NetworkManager connection file.
pub struct ParserState {
    pub section: NwMgrSection,
    pub is_wifi: bool,
    pub ssid: Option<String>,
}

impl ParserState {
    pub open spec fn model(&self) -> NwModel {
        NwModel {
            section: self.section,
            is_wifi: self.is_wifi,
            ssid: crate::common::options::opt_view(self.ssid),
        }
    }

    pub fn new() -> (r: ParserState)
        ensures
            r.model() == nw_init(),
    {
        ParserState { section: NwMgrSection::Other, is_wifi: false, ssid: None }
    }

    pub fn reset(&mut self)
        ensures
            final(self).model() == nw_init(),
    {
        self.ssid = None;
        self.is_wifi = false;
        self.section = NwMgrSection::Other;
    }

    /// Whether a network name passes the filter (see `valid_ssid`).
    pub fn is_valid_ssid(ssid: &str, ssid_filter: &[String]) -> (r: bool)
        ensures
            r == valid_ssid(ssid@, filter_view(ssid_filter@)),
    {
        if ssid_filter.len() == 0 {
            return true;
        }
        let sc = str_chars(ssid);
        let mut i: usize = 0;
        while i < ssid_filter.len()
            invariant
                i <= ssid_filter@.len(),
                sc@ == ssid@,
                forall|j: int| 0 <= j < i ==> filter_view(ssid_filter@)[j] != ssid@,
            decreases ssid_filter@.len() - i,
        {
            let f = str_chars(ssid_filter[i].as_str());
            proof {
                assert(filter_view(ssid_filter@)[i as int] == ssid_filter@[i as int]@);
            }
            if chars_eq(f.as_slice(), sc.as_slice()) {
                return true;
            }
            i = i + 1;
        }
        proof {
            if filter_view(ssid_filter@).contains(ssid@) {
                let j = choose|j: int| 0 <= j < filter_view(ssid_filter@).len() && filter_view(ssid_filter@)[j] == ssid@;
                assert(filter_view(ssid_filter@)[j] != ssid@);
            }
        }
        false
    }

    /// One line (see `nw_step`).
    pub fn parse_line(&mut self, line: &[char]) -> (r: ParseResult)
        ensures
            (final(self).model(), r) == nw_step(old(self).model(), line@),
    {
        if crate::migrator::stage1::wifi_config::wpa_parser::skip_line_pub(line) {
            return ParseResult::Continue;
        }
        if let Some(n) = section_line_exec(line) {
            self.section = if chars_eq(n.as_slice(), str_chars("connection").as_slice()) {
                NwMgrSection::Connection
            } else if chars_eq(n.as_slice(), str_chars("wifi").as_slice()) {
                NwMgrSection::Wifi
            } else {
                NwMgrSection::Other
            };
            return ParseResult::Continue;
        }
        match param_line_exec(line) {
            None => ParseResult::Continue,
            Some((p, v)) => match self.section {
                NwMgrSection::Connection => {
                    if chars_eq(p.as_slice(), str_chars("type").as_slice()) {
                        if chars_eq(v.as_slice(), str_chars("wifi").as_slice()) {
                            self.is_wifi = true;
                            if self.ssid.is_some() {
                                ParseResult::TermFound
                            } else {
                                ParseResult::Continue
                            }
                        } else {
                            ParseResult::TermNoWifi
                        }
                    } else {
                        ParseResult::Continue
                    }
                },
                NwMgrSection::Wifi => {
                    if chars_eq(p.as_slice(), str_chars("ssid").as_slice()) {
                        self.ssid = Some(string_from_chars(v.as_slice()));
                        if self.is_wifi {
                            ParseResult::TermFound
                        } else {
                            ParseResult::Continue
                        }
                    } else {
                        ParseResult::Continue
                    }
                },
                NwMgrSection::Other => ParseResult::Continue,
            },
        }
    }

    /// The network of one connection file, given by path and text, added
    /// where it is a wifi connection whose name passes the filter.
    pub fn parse_file(
        &mut self,
        cfg_file: &str,
        text: &str,
        ssid_filter: &[String],
        wifis: &mut Vec<WifiConfig>,
    )
        requires
            old(self).model() == nw_init(),
        ensures
            wifis_view(final(wifis)@) == wifis_view(old(wifis)@) + match file_fold(
                lines(text@),
                nw_init(),
            ) {
                Some(s) => if valid_ssid(s, filter_view(ssid_filter@)) {
                    seq![WifiModel::File { ssid: s, file: cfg_file@ }]
                } else {
                    seq![]
                },
                None => seq![],
            },
    {
        let chars = str_chars(text);
        let ls = split_lines(chars.as_slice());
        let ghost all = view_all(ls@);
        let ghost w0 = wifis_view(wifis@);
        let mut i: usize = 0;
        proof {
            assert(all.skip(0) =~= all);
        }
        while i < ls.len()
            invariant
                i <= ls@.len(),
                all == view_all(ls@),
                all == lines(text@),
                wifis_view(wifis@) == w0,
                w0 == wifis_view(old(wifis)@),
                file_fold(all.skip(i as int), self.model()) == file_fold(lines(text@), nw_init()),
            decreases ls@.len() - i,
        {
            proof {
                assert(all.skip(i as int)[0] == ls@[i as int]@);
                assert(all.skip(i as int).drop_first() =~= all.skip(i + 1));
            }
            let ghost m0 = self.model();
            let res = self.parse_line(ls[i].as_slice());
            proof {
                let s = all.skip(i as int);
                assert(s[0] == ls@[i as int]@);
                assert(file_fold(s, m0) == (match res {
                    ParseResult::Continue => file_fold(s.drop_first(), self.model()),
                    ParseResult::TermFound => self.model().ssid,
                    ParseResult::TermNoWifi => None,
                }));
            }
            match res {
                ParseResult::Continue => {},
                ParseResult::TermFound => {
                    if let Some(ssid) = self.ssid.take() {
                        if ParserState::is_valid_ssid(ssid.as_str(), ssid_filter) {
                            wifis.push(
                                WifiConfig::NwMgrFile(
                                    NwmgrFile {
                                        ssid,
                                        file: string_from_chars(str_chars(cfg_file).as_slice()),
                                    },
                                ),
                            );
                            proof {
                                assert(wifis_view(wifis@) =~= w0.push(WifiModel::File { ssid: ssid@, file: cfg_file@ }));
                            }
                        } else {
                            assert(wifis_view(wifis@) =~= w0 + Seq::<WifiModel>::empty());
                        }
                    }
                    return;
                },
                ParseResult::TermNoWifi => {
                    assert(wifis_view(wifis@) =~= w0 + Seq::<WifiModel>::empty());
                    return;
                },
            }
            i = i + 1;
        }
        proof {
            assert(all.skip(i as int) =~= Seq::<Seq<char>>::empty());
            assert(wifis_view(wifis@) =~= w0 + Seq::<WifiModel>::empty());
        }
    }

    /// `is_id_line` (see `id_step`).
    pub fn is_id_line(&mut self, line: &[char]) -> (r: bool)
        ensures
            (final(self).section, r) == id_step(old(self).section, line@),
            final(self).is_wifi == old(self).is_wifi,
            final(self).ssid == old(self).ssid,
    {
        if let Some(n) = section_line_exec(line) {
            self.section = if chars_eq(n.as_slice(), str_chars("connection").as_slice()) {
                NwMgrSection::Connection
            } else {
                NwMgrSection::Other
            };
            false
        } else if self.section == NwMgrSection::Connection {
            match param_line_exec(line) {
                Some((p, _)) => chars_eq(p.as_slice(), str_chars("id").as_slice()),
                None => false,
            }
        } else {
            false
        }
    }
}

/// A connection file's text with its connection id replaced by `id` (see
/// `replace_id_spec`).
pub fn replace_nwmgr_id(content: &str, id: &str) -> (r: Result<String, Error>)
    ensures
        match replace_id_spec(content@, id@) {
            Ok(t) => r matches Ok(s) && s@ == t,
            Err(k) => r matches Err(e) && e.kind == k,
        },
{
    let chars = str_chars(content);
    let idc = str_chars(id);
    let ls = split_lines(chars.as_slice());
    let ghost all = view_all(ls@);
    let mut res: Vec<char> = Vec::new();
    let mut parser = ParserState::new();
    let mut found = false;
    let mut i: usize = 0;
    proof {
        assert(all.skip(0) =~= all);
    }
    while i < ls.len()
        invariant
            i <= ls@.len(),
            all == view_all(ls@),
            all == lines(content@),
            idc@ == id@,
            ({
                let (t, f) = replace_fold(all.skip(i as int), parser.section, found, id@);
                let (t0, f0) = replace_fold(lines(content@), NwMgrSection::Other, false, id@);
                res@ + t == t0 && f == f0
            }),
        decreases ls@.len() - i,
    {
        let l = ls[i].as_slice();
        proof {
            assert(all.skip(i as int)[0] == l@);
            assert(all.skip(i as int).drop_first() =~= all.skip(i + 1));
        }
        let ghost before = res@;
        let ghost sec = parser.section;
        let ghost fnd = found;
        if !found && parser.is_id_line(l) {
            push_str(&mut res, "id=");
            push_chars(&mut res, idc.as_slice());
            res.push('\n');
            found = true;
            proof {
                let (t, f) = replace_fold(all.skip(i + 1), parser.section, true, id@);
                assert(res@ + t =~= before + ("id="@ + id@ + seq!['\n'] + t));
            }
        } else {
            push_chars(&mut res, l);
            res.push('\n');
            proof {
                let (t, f) = replace_fold(all.skip(i + 1), parser.section, found, id@);
                assert(res@ + t =~= before + (l@ + seq!['\n'] + t));
            }
        }
        i = i + 1;
    }
    proof {
        assert(all.skip(i as int) =~= Seq::<Seq<char>>::empty());
        let (t, f) = replace_fold(all.skip(i as int), parser.section, found, id@);
        assert(res@ + t =~= res@);
    }
    if found {
        Ok(string_from_chars(res.as_slice()))
    } else {
        Err(Error::with_context(ErrorKind::InvState, "No NetworkManager connection Id found"))
    }
}

/// The networks of NetworkManager connection files, given by path and text
/// (see `nwmgr_files_spec`).
pub fn parse_nwmgr_config(ssid_filter: &[String], files: &[(String, String)]) -> (r: Vec<WifiConfig>)
    ensures
        wifis_view(r@) == nwmgr_files_spec(files_view(files@), filter_view(ssid_filter@)),
{
    let mut wifis: Vec<WifiConfig> = Vec::new();
    let mut parser = ParserState::new();
    let mut i: usize = 0;
    proof {
        assert(files_view(files@).take(0) =~= Seq::<(Seq<char>, Seq<char>)>::empty());
        assert(wifis_view(wifis@) =~= Seq::<WifiModel>::empty());
    }
    while i < files.len()
        invariant
            i <= files@.len(),
            parser.model() == nw_init(),
            wifis_view(wifis@) == nwmgr_files_spec(
                files_view(files@).take(i as int),
                filter_view(ssid_filter@),
            ),
        decreases files@.len() - i,
    {
        proof {
            let fv = files_view(files@);
            assert(fv.take(i + 1).drop_last() =~= fv.take(i as int));
            assert(fv.take(i + 1).last() == (files@[i as int].0@, files@[i as int].1@));
        }
        parser.parse_file(files[i].0.as_str(), files[i].1.as_str(), ssid_filter, &mut wifis);
        parser.reset();
        i = i + 1;
    }
    proof {
        assert(files_view(files@).take(files@.len() as int) =~= files_view(files@));
    }
    wifis
}

} // verus!
