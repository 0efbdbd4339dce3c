//! The networks of a `wpa_supplicant` configuration: `network={ ... }`
//! blocks with `ssid` and `psk` settings.
use vstd::prelude::*;

use crate::migrator::common::mig_error::{MigError, MigErrorKind};
use crate::migrator::stage1::wifi_config::{
    filter_view, ssid_of, wifis_view, Params, WifiConfig, WifiModel,
};
use crate::common::options::opt_view;
use crate::text::{
    chars_eq, find_char, find_char_from, is_whitespace, lemma_span, lines, lit_at, lit_at_exec,
    non_ws_pred, slice_to_vec, span, span_non_ws_from, span_ws_from, split_lines, str_chars,
    string_from_chars, view_all, word_at, ws_at, ws_pred, is_ws, lemma_span_at,
};

verus! {

/// A comment or blank line.
pub open spec fn skip_line(l: Seq<char>) -> bool {
    let w = ws_at(l, 0);
    w == l.len() || l[w] == '#'
}

/// `network = {`, with any whitespace around the parts.
pub open spec fn net_start(l: Seq<char>) -> bool {
    let a = ws_at(l, 0);
    let b = a + 7 + ws_at(l, a + 7);
    let c = b + 1 + ws_at(l, b + 1);
    lit_at(l, a, "network"@) && b < l.len() && l[b] == '=' && c < l.len() && l[c] == '{' && c + 1
        + ws_at(l, c + 1) == l.len()
}

/// `}`, with any whitespace around it.
pub open spec fn net_end(l: Seq<char>) -> bool {
    let a = ws_at(l, 0);
    a < l.len() && l[a] == '}' && a + 1 + ws_at(l, a + 1) == l.len()
}

/// A setting `name = "value"` whose name ends at `k`: the name within the
/// first word, a non-empty value without quotes, nothing but whitespace after.
pub open spec fn p1_ok(l: Seq<char>, k: int) -> bool {
    let s0 = ws_at(l, 0);
    let j = k + ws_at(l, k);
    let q = j + 1 + ws_at(l, j + 1);
    let z = q + 1 + find_char(l.skip(q + 1), '"');
    s0 < k <= s0 + word_at(l, s0) && j < l.len() && l[j] == '=' && q < l.len() && l[q] == '"' && z
        > q + 1 && z < l.len() && z + 1 + ws_at(l, z + 1) == l.len()
}

/// A setting `name = value` whose name ends at `k`: the name within the
/// first word, the value one word, nothing but whitespace after.
pub open spec fn p2_ok(l: Seq<char>, k: int) -> bool {
    let s0 = ws_at(l, 0);
    let j = k + ws_at(l, k);
    let v0 = j + 1 + ws_at(l, j + 1);
    s0 < k <= s0 + word_at(l, s0) && j < l.len() && l[j] == '=' && v0 + word_at(l, v0) > v0 && v0
        + word_at(l, v0) + ws_at(l, v0 + word_at(l, v0)) == l.len()
}

/// The largest name end at or below `k` for which `quoted` (`p1_ok`) or
/// else `p2_ok` holds; names are matched greedily.
pub open spec fn find_name_end(l: Seq<char>, k: int, quoted: bool) -> int
    decreases k,
{
    if k <= ws_at(l, 0) {
        -1
    } else if (quoted && p1_ok(l, k)) || (!quoted && p2_ok(l, k)) {
        k
    } else {
        find_name_end(l, k - 1, quoted)
    }
}

/// The setting of a line inside a network block: the quoted form where the
/// line has it, else the plain form.
pub open spec fn wpa_param(l: Seq<char>) -> Option<(Seq<char>, Seq<char>)> {
    let s0 = ws_at(l, 0);
    let e0 = s0 + word_at(l, s0);
    let k1 = find_name_end(l, e0, true);
    let k2 = find_name_end(l, e0, false);
    if k1 >= 0 {
        let j = k1 + ws_at(l, k1);
        let q = j + 1 + ws_at(l, j + 1);
        let z = q + 1 + find_char(l.skip(q + 1), '"');
        Some((l.subrange(s0, k1), l.subrange(q + 1, z)))
    } else if k2 >= 0 {
        let j = k2 + ws_at(l, k2);
        let v0 = j + 1 + ws_at(l, j + 1);
        Some((l.subrange(s0, k2), l.subrange(v0, v0 + word_at(l, v0))))
    } else {
        None
    }
}

/// The parser's state: whether it is inside a network block, and the name
/// and password read there.
pub struct WpaModel {
    pub network: bool,
    pub ssid: Option<Seq<char>>,
    pub psk: Option<Seq<char>>,
}

pub open spec fn wpa_init() -> WpaModel {
    WpaModel { network: false, ssid: None, psk: None }
}

/// Some network so far has the name `s`.
pub open spec fn has_ssid(ws: Seq<WifiModel>, s: Seq<char>) -> bool {
    exists|i: int| 0 <= i < ws.len() && ssid_of(#[trigger] ws[i]) == s
}

/// The end of a network block: a network with a name that passes the filter
/// (an empty filter passes all) and is not known yet is added.
pub open spec fn end_network(st: WpaModel, ws: Seq<WifiModel>, filter: Seq<Seq<char>>) -> Seq<
    WifiModel,
> {
    match st.ssid {
        Some(s) => if (filter.len() == 0 || filter.contains(s)) && !has_ssid(ws, s) {
            ws.push(WifiModel::Params { ssid: s, psk: st.psk })
        } else {
            ws
        },
        None => ws,
    }
}

/// One line: comments and blank lines are passed over; outside a block only
/// its start counts; inside, its end closes the network, `ssid` and `psk`
/// settings are kept, other lines are passed over.
pub open spec fn wpa_step(st: WpaModel, l: Seq<char>, ws: Seq<WifiModel>, filter: Seq<Seq<char>>) -> (
    WpaModel,
    Seq<WifiModel>,
) {
    if skip_line(l) {
        (st, ws)
    } else if !st.network {
        if net_start(l) {
            (WpaModel { network: true, ..st }, ws)
        } else {
            (st, ws)
        }
    } else if net_end(l) {
        (wpa_init(), end_network(st, ws, filter))
    } else {
        match wpa_param(l) {
            Some((n, v)) => if n == "ssid"@ {
                (WpaModel { ssid: Some(v), ..st }, ws)
            } else if n == "psk"@ {
                (WpaModel { psk: Some(v), ..st }, ws)
            } else {
                (st, ws)
            },
            None => (st, ws),
        }
    }
}

pub open spec fn wpa_fold(ls: Seq<Seq<char>>, st: WpaModel, ws: Seq<WifiModel>, filter: Seq<Seq<char>>) -> Seq<
    WifiModel,
>
    decreases ls.len(),
{
    if ls.len() == 0 {
        ws
    } else {
        let (st2, ws2) = wpa_step(st, ls[0], ws, filter);
        wpa_fold(ls.drop_first(), st2, ws2, filter)
    }
}

/// The networks of a configuration text.
pub open spec fn wpa_spec(text: Seq<char>, filter: Seq<Seq<char>>) -> Seq<WifiModel> {
    wpa_fold(lines(text), wpa_init(), seq![], filter)
}

/// The name may end at `k` (see `find_name_end`).
#[verifier::opaque]
pub open spec fn name_end_ok(l: Seq<char>, k: int, quoted: bool) -> bool {
    (quoted && p1_ok(l, k)) || (!quoted && p2_ok(l, k))
}

proof fn lemma_find_name_end_is(l: Seq<char>, k: int, m: int, quoted: bool)
    requires
        ws_at(l, 0) < m <= k,
        name_end_ok(l, m, quoted),
        forall|x: int| m < x <= k ==> !#[trigger] name_end_ok(l, x, quoted),
    ensures
        find_name_end(l, k, quoted) == m,
    decreases k,
{
    reveal(name_end_ok);
    if k > m {
        assert(!name_end_ok(l, k, quoted));
        lemma_find_name_end_is(l, k - 1, m, quoted);
    }
}

proof fn lemma_find_name_end_none(l: Seq<char>, k: int, quoted: bool)
    requires
        forall|x: int| ws_at(l, 0) < x <= k ==> !#[trigger] name_end_ok(l, x, quoted),
    ensures
        find_name_end(l, k, quoted) == -1,
    decreases k,
{
    reveal(name_end_ok);
    if k > ws_at(l, 0) {
        assert(!name_end_ok(l, k, quoted));
        lemma_find_name_end_none(l, k - 1, quoted);
    }
}

/// A setting written without quotes, `<name>=<value>` after any indentation.
pub open spec fn plain_setting(lead: Seq<char>, name: Seq<char>, value: Seq<char>) -> Seq<char> {
    lead + name + seq!['='] + value
}

/// A character of a bare word of a setting: no whitespace, `=` or quote.
pub open spec fn bare_char(c: char) -> bool {
    !is_ws(c) && c != '=' && c != '"'
}

/// A setting not in quotes, `<name>=<value>` with one-word name and value, is
/// read like a quoted one: its name and its value, exactly.
pub proof fn law_wpa_plain_setting(lead: Seq<char>, name: Seq<char>, value: Seq<char>)
    requires
        forall|i: int| 0 <= i < lead.len() ==> is_ws(#[trigger] lead[i]),
        name.len() > 0,
        forall|i: int| 0 <= i < name.len() ==> bare_char(#[trigger] name[i]),
        value.len() > 0,
        forall|i: int| 0 <= i < value.len() ==> bare_char(#[trigger] value[i]),
    ensures
        wpa_param(plain_setting(lead, name, value)) == Some((name, value)),
{
    let l = plain_setting(lead, name, value);
    let ll = lead.len() as int;
    let nn = name.len() as int;
    let vv = value.len() as int;
    let k = ll + nn;
    assert(l.len() == k + 1 + vv);
    assert forall|j: int| 0 <= j < ll implies #[trigger] ws_pred()(l[j]) by {
        assert(l[j] == lead[j]);
    }
    assert forall|j: int| ll <= j < l.len() implies #[trigger] non_ws_pred()(l[j]) by {
        if j < k {
            assert(l[j] == name[j - ll]);
        } else if j > k {
            assert(l[j] == value[j - k - 1]);
        }
    }
    assert forall|j: int| 0 <= j < l.len() implies #[trigger] l[j] != '"' by {
        if j < ll {
            assert(l[j] == lead[j]);
        } else if j < k {
            assert(l[j] == name[j - ll]);
        } else if j > k {
            assert(l[j] == value[j - k - 1]);
        }
    }
    assert forall|j: int| k < j < l.len() implies #[trigger] l[j] != '=' by {
        assert(l[j] == value[j - k - 1]);
    }
    assert(l[k] == '=');
    lemma_span_at(l, 0, ll, ws_pred());
    lemma_span_at(l, ll, l.len() - ll, non_ws_pred());
    lemma_span_at(l, k, 0, ws_pred());
    lemma_span_at(l, k + 1, 0, ws_pred());
    lemma_span_at(l, k + 1, vv, non_ws_pred());
    lemma_span_at(l, l.len() as int, 0, ws_pred());
    assert(p2_ok(l, k));
    reveal(name_end_ok);
    assert(name_end_ok(l, k, false));
    assert forall|x: int| k < x <= l.len() implies !#[trigger] name_end_ok(l, x, false) by {
        lemma_span_at(l, x, 0, ws_pred());
    }
    assert forall|x: int| ws_at(l, 0) < x <= l.len() implies !#[trigger] name_end_ok(l, x, true) by {
        let j = x + ws_at(l, x);
        lemma_span(l.skip(x), ws_pred());
        let q = j + 1 + ws_at(l, j + 1);
        if q < l.len() {
            assert(l[q] != '"');
        }
    }
    lemma_find_name_end_none(l, l.len() as int, true);
    lemma_find_name_end_is(l, l.len() as int, k, false);
    assert(l.subrange(ll, k) =~= name);
    assert(l.subrange(k + 1, k + 1 + vv) =~= value);
}

/// Inside a network block, a line `psk=<value>` or `ssid=<value>` whose value
/// is one word without quotes sets the network's password or name to that
/// word, as the quoted form does.
pub proof fn law_wpa_plain_psk_ssid(
    st: WpaModel,
    lead: Seq<char>,
    value: Seq<char>,
    ws: Seq<WifiModel>,
    filter: Seq<Seq<char>>,
)
    requires
        st.network,
        forall|i: int| 0 <= i < lead.len() ==> is_ws(#[trigger] lead[i]),
        value.len() > 0,
        forall|i: int| 0 <= i < value.len() ==> bare_char(#[trigger] value[i]),
    ensures
        wpa_step(st, plain_setting(lead, "psk"@, value), ws, filter) == (
            WpaModel { psk: Some(value), ..st },
            ws,
        ),
        wpa_step(st, plain_setting(lead, "ssid"@, value), ws, filter) == (
            WpaModel { ssid: Some(value), ..st },
            ws,
        ),
{
    reveal_strlit("psk");
    reveal_strlit("ssid");
    law_wpa_plain_setting(lead, "psk"@, value);
    law_wpa_plain_setting(lead, "ssid"@, value);
    let ll = lead.len() as int;
    let l1 = plain_setting(lead, "psk"@, value);
    let l2 = plain_setting(lead, "ssid"@, value);
    assert forall|j: int| 0 <= j < ll implies #[trigger] ws_pred()(l1[j]) by {
        assert(l1[j] == lead[j]);
    }
    assert forall|j: int| 0 <= j < ll implies #[trigger] ws_pred()(l2[j]) by {
        assert(l2[j] == lead[j]);
    }
    assert(l1[ll] == 'p');
    assert(l2[ll] == 's');
    lemma_span_at(l1, 0, ll, ws_pred());
    lemma_span_at(l2, 0, ll, ws_pred());
    assert(!skip_line(l1) && !net_end(l1));
    assert(!skip_line(l2) && !net_end(l2));
}

/// Whether a line is a comment or blank (see `skip_line`).
pub fn skip_line_pub(l: &[char]) -> (r: bool)
    ensures
        r == skip_line(l@),
{
    skip_line_exec(l)
}

fn skip_line_exec(l: &[char]) -> (r: bool)
    ensures
        r == skip_line(l@),
{
    let w = span_ws_from(l, 0);
    proof {
        assert(l@.skip(0) =~= l@);
    }
    w == l.len() || l[w] == '#'
}

#[verifier::rlimit(30)]
fn net_start_exec(l: &[char]) -> (r: bool)
    ensures
        r == net_start(l@),
{
    proof {
        assert(l@.skip(0) =~= l@);
        reveal_strlit("network");
    }
    let a = span_ws_from(l, 0);
    if !lit_at_exec(l, a, "network") {
        return false;
    }
    let n = l.len();
    assert(a + 7 <= n);
    let b = span_ws_from(l, a + 7);
    if b >= l.len() || l[b] != '=' {
        return false;
    }
    let c = span_ws_from(l, b + 1);
    if c >= l.len() || l[c] != '{' {
        return false;
    }
    span_ws_from(l, c + 1) == l.len()
}

fn net_end_exec(l: &[char]) -> (r: bool)
    ensures
        r == net_end(l@),
{
    proof {
        assert(l@.skip(0) =~= l@);
    }
    let a = span_ws_from(l, 0);
    if a >= l.len() || l[a] != '}' {
        return false;
    }
    span_ws_from(l, a + 1) == l.len()
}

fn p1_exec(l: &[char], k: usize) -> (r: Option<(usize, usize)>)
    requires
        k <= l@.len(),
        ws_at(l@, 0) < k <= ws_at(l@, 0) + word_at(l@, 0 + ws_at(l@, 0)),
    ensures
        p1_ok(l@, k as int) <==> r is Some,
        r matches Some((q, z)) ==> ({
            let j = k + ws_at(l@, k as int);
            q == j + 1 + ws_at(l@, j + 1) && z == q + 1 + find_char(l@.skip(q + 1), '"')
        }),
{
    let j = span_ws_from(l, k);
    if j >= l.len() || l[j] != '=' {
        return None;
    }
    let q = span_ws_from(l, j + 1);
    if q >= l.len() || l[q] != '"' {
        return None;
    }
    let z = find_char_from(l, q + 1, '"');
    if z <= q + 1 || z >= l.len() {
        return None;
    }
    if span_ws_from(l, z + 1) != l.len() {
        return None;
    }
    Some((q, z))
}

fn p2_exec(l: &[char], k: usize) -> (r: Option<(usize, usize)>)
    requires
        k <= l@.len(),
        ws_at(l@, 0) < k <= ws_at(l@, 0) + word_at(l@, 0 + ws_at(l@, 0)),
    ensures
        p2_ok(l@, k as int) <==> r is Some,
        r matches Some((v0, v1)) ==> ({
            let j = k + ws_at(l@, k as int);
            v0 == j + 1 + ws_at(l@, j + 1) && v1 == v0 + word_at(l@, v0 as int)
        }),
{
    let j = span_ws_from(l, k);
    if j >= l.len() || l[j] != '=' {
        return None;
    }
    let v0 = span_ws_from(l, j + 1);
    let v1 = span_non_ws_from(l, v0);
    if v1 <= v0 {
        return None;
    }
    if span_ws_from(l, v1) != l.len() {
        return None;
    }
    Some((v0, v1))
}

fn wpa_param_exec(l: &[char]) -> (r: Option<(Vec<char>, Vec<char>)>)
    ensures
        match wpa_param(l@) {
            Some((n, v)) => r matches Some((n2, v2)) && n2@ == n && v2@ == v,
            None => r is None,
        },
{
    proof {
        assert(l@.skip(0) =~= l@);
    }
    let s0 = span_ws_from(l, 0);
    let e0 = span_non_ws_from(l, s0);
    let mut k: usize = e0;
    while k > s0
        invariant
            s0 == ws_at(l@, 0),
            e0 == s0 + word_at(l@, s0 as int),
            e0 <= l@.len(),
            s0 <= k <= e0,
            find_name_end(l@, k as int, true) == find_name_end(l@, e0 as int, true),
        decreases k,
    {
        match p1_exec(l, k) {
            Some((q, z)) => {
                let n = slice_to_vec(l, s0, k);
                let v = slice_to_vec(l, q + 1, z);
                return Some((n, v));
            },
            None => {},
        }
        k = k - 1;
    }
    let mut k: usize = e0;
    while k > s0
        invariant
            s0 == ws_at(l@, 0),
            e0 == s0 + word_at(l@, s0 as int),
            e0 <= l@.len(),
            s0 <= k <= e0,
            find_name_end(l@, e0 as int, true) < 0,
            find_name_end(l@, k as int, false) == find_name_end(l@, e0 as int, false),
        decreases k,
    {
        match p2_exec(l, k) {
            Some((v0, v1)) => {
                let n = slice_to_vec(l, s0, k);
                let v = slice_to_vec(l, v0, v1);
                return Some((n, v));
            },
            None => {},
        }
        k = k - 1;
    }
    None
}

#[derive(Debug, Clone, Copy, PartialEq, Eq, Structural)]
pub enum WpaState {
    Init,
    Network,
}

/// The parser of a `wpa_supplicant` configuration, with the names of the
/// networks to keep (all where the list is empty).
pub struct WpaParser<'a> {
    pub ssid_filter: &'a [String],
    pub state: WpaState,
    pub last_state: WpaState,
    pub ssid: Option<String>,
    pub psk: Option<String>,
}

impl<'a> WpaParser<'a> {
    pub open spec fn model(&self) -> WpaModel {
        WpaModel {
            network: self.state == WpaState::Network,
            ssid: opt_view(self.ssid),
            psk: opt_view(self.psk),
        }
    }

    /// The networks of the configuration file's text, where the file exists;
    /// a `Displayed` error where it does not.
    pub fn parse_config(ssid_filter: &[String], config_text: Option<&str>) -> (r: Result<
        Vec<WifiConfig>,
        MigError,
    >)
        ensures
            match config_text {
                Some(t) => r matches Ok(v) && wifis_view(v@) == wpa_spec(t@, filter_view(ssid_filter@)),
                None => r matches Err(e) && e.inner.kind == MigErrorKind::Displayed,
            },
    {
        match config_text {
            Some(t) => {
                let mut parser = WpaParser::new(ssid_filter);
                parser.parse_file(t)
            },
            None => Err(MigError::displayed()),
        }
    }

    pub fn new(ssid_filter: &'a [String]) -> (r: WpaParser<'a>)
        ensures
            r.model() == wpa_init(),
            r.ssid_filter == ssid_filter,
    {
        WpaParser { ssid_filter, state: WpaState::Init, last_state: WpaState::Init, ssid: None, psk: None }
    }

    fn init_state(&mut self)
        ensures
            final(self).model() == wpa_init(),
            final(self).ssid_filter == old(self).ssid_filter,
    {
        self.state = WpaState::Init;
        self.last_state = WpaState::Init;
        self.ssid = None;
        self.psk = None;
    }

    fn end_network_exec(&mut self, wifis: &mut Vec<WifiConfig>)
        ensures
            final(self).model() == wpa_init(),
            final(self).ssid_filter == old(self).ssid_filter,
            wifis_view(final(wifis)@) == end_network(
                old(self).model(),
                wifis_view(old(wifis)@),
                filter_view(old(self).ssid_filter@),
            ),
    {
        if let Some(ssid) = self.ssid.take() {
            let sc = str_chars(ssid.as_str());
            let mut valid = self.ssid_filter.len() == 0;
            if !valid {
                let mut i: usize = 0;
                while i < self.ssid_filter.len()
                    invariant
                        i <= self.ssid_filter@.len(),
                        sc@ == ssid@,
                        !valid ==> forall|j: int| 0 <= j < i ==> filter_view(self.ssid_filter@)[j] != ssid@,
                        valid ==> filter_view(self.ssid_filter@).contains(ssid@),
                    decreases self.ssid_filter@.len() - i,
                {
                    let f = str_chars(self.ssid_filter[i].as_str());
                    proof {
                        assert(filter_view(self.ssid_filter@)[i as int] == self.ssid_filter@[i as int]@);
                    }
                    if chars_eq(f.as_slice(), sc.as_slice()) {
                        valid = true;
                    }
                    i = i + 1;
                }
            }
            proof {
                if !valid && filter_view(self.ssid_filter@).contains(ssid@) {
                    let j = choose|j: int| 0 <= j < filter_view(self.ssid_filter@).len() && filter_view(self.ssid_filter@)[j] == ssid@;
                    assert(filter_view(self.ssid_filter@)[j] != ssid@);
                }
            }
            if valid {
                let mut dup = false;
                let mut i: usize = 0;
                while i < wifis.len()
                    invariant
                        i <= wifis@.len(),
                        sc@ == ssid@,
                        !dup ==> forall|j: int| 0 <= j < i ==> ssid_of(wifis_view(wifis@)[j]) != ssid@,
                        dup ==> has_ssid(wifis_view(wifis@), ssid@),
                    decreases wifis@.len() - i,
                {
                    let w = str_chars(wifis[i].get_ssid());
                    proof {
                        assert(wifis_view(wifis@)[i as int] == wifis@[i as int]@);
                    }
                    if chars_eq(w.as_slice(), sc.as_slice()) {
                        dup = true;
                    }
                    i = i + 1;
                }
                proof {
                    if !dup && has_ssid(wifis_view(wifis@), ssid@) {
                        let j = choose|j: int| 0 <= j < wifis_view(wifis@).len() && ssid_of(wifis_view(wifis@)[j]) == ssid@;
                        assert(ssid_of(wifis_view(wifis@)[j]) != ssid@);
                    }
                }
                if !dup {
                    let ghost before = wifis_view(wifis@);
                    let psk = self.psk.take();
                    let ghost pv = opt_view(psk);
                    wifis.push(WifiConfig::Params(Params { ssid, psk }));
                    proof {
                        assert(wifis_view(wifis@) =~= before.push(WifiModel::Params { ssid: ssid@, psk: pv }));
                    }
                }
            }
        }
        self.init_state();
    }

    /// The networks of a configuration text (see `wpa_spec`).
    pub fn parse_file(&mut self, text: &str) -> (r: Result<Vec<WifiConfig>, MigError>)
        requires
            old(self).model() == wpa_init(),
        ensures
            r matches Ok(v) && wifis_view(v@) == wpa_spec(text@, filter_view(old(self).ssid_filter@)),
    {
        let mut wifis: Vec<WifiConfig> = Vec::new();
        let chars = str_chars(text);
        let ls = split_lines(chars.as_slice());
        let ghost filter = filter_view(self.ssid_filter@);
        let ghost all = view_all(ls@);
        let mut i: usize = 0;
        proof {
            assert(all.skip(0) =~= all);
            assert(wifis_view(wifis@) =~= Seq::<WifiModel>::empty());
        }
        while i < ls.len()
            invariant
                i <= ls@.len(),
                all == view_all(ls@),
                all == lines(text@),
                filter == filter_view(self.ssid_filter@),
                filter == filter_view(old(self).ssid_filter@),
                wpa_fold(all.skip(i as int), self.model(), wifis_view(wifis@), filter) == wpa_spec(
                    text@,
                    filter,
                ),
            decreases ls@.len() - i,
        {
            let l = ls[i].as_slice();
            proof {
                assert(all.skip(i as int)[0] == l@);
                assert(all.skip(i as int).drop_first() =~= all.skip(i + 1));
            }
            if self.last_state != self.state {
                self.last_state = self.state;
            }
            if skip_line_exec(l) {
            } else if self.state == WpaState::Init {
                if net_start_exec(l) {
                    self.state = WpaState::Network;
                }
            } else if net_end_exec(l) {
                self.end_network_exec(&mut wifis);
            } else {
                match wpa_param_exec(l) {
                    Some((n, v)) => {
                        if chars_eq(n.as_slice(), str_chars("ssid").as_slice()) {
                            self.ssid = Some(string_from_chars(v.as_slice()));
                        } else if chars_eq(n.as_slice(), str_chars("psk").as_slice()) {
                            self.psk = Some(string_from_chars(v.as_slice()));
                        }
                    },
                    None => {},
                }
            }
            i = i + 1;
        }
        proof {
            assert(all.skip(i as int) =~= Seq::<Seq<char>>::empty());
        }
        Ok(wifis)
    }
}

} // verus!
