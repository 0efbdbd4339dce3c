//! Character-level text handling shared by the parsers: whitespace, trimming,
//! line and word splitting, decimal and hexadecimal numbers.
use vstd::prelude::*;

verus! {

// ---------------------------------------------------------------------------
// Character classes
// ---------------------------------------------------------------------------

/// Unicode `White_Space`, the class used by `char::is_whitespace`, `str::trim`,
/// `str::split_whitespace` and the `\s` class of regular expressions.
pub open spec fn is_ws(c: char) -> bool {
    let u = c as u32;
    (9 <= u && u <= 13) || u == 32 || u == 0x85 || u == 0xa0 || u == 0x1680 || (0x2000 <= u && u
        <= 0x200a) || u == 0x2028 || u == 0x2029 || u == 0x202f || u == 0x205f || u == 0x3000
}

pub open spec fn is_digit(c: char) -> bool {
    '0' <= c && c <= '9'
}

pub open spec fn digit_value(c: char) -> nat {
    ((c as u32) - ('0' as u32)) as nat
}

pub open spec fn digit_char(d: nat) -> char {
    ((d + ('0' as u32)) as u32) as char
}

/// Lower case hexadecimal digit for `d < 16`.
pub open spec fn hex_char(d: nat) -> char {
    if d < 10 {
        digit_char(d)
    } else {
        ((d - 10 + ('a' as u32)) as u32) as char
    }
}

pub fn is_whitespace(c: char) -> (r: bool)
    ensures
        r == is_ws(c),
{
    let u = c as u32;
    (9 <= u && u <= 13) || u == 32 || u == 0x85 || u == 0xa0 || u == 0x1680 || (0x2000 <= u && u
        <= 0x200a) || u == 0x2028 || u == 0x2029 || u == 0x202f || u == 0x205f || u == 0x3000
}

// ---------------------------------------------------------------------------
// Spans: the length of the longest prefix whose characters satisfy a predicate
// ---------------------------------------------------------------------------

pub open spec fn span(s: Seq<char>, p: spec_fn(char) -> bool) -> nat
    decreases s.len(),
{
    if s.len() == 0 || !p(s[0]) {
        0
    } else {
        1 + span(s.drop_first(), p)
    }
}

pub open spec fn ws_pred() -> spec_fn(char) -> bool {
    |c: char| is_ws(c)
}

pub open spec fn non_ws_pred() -> spec_fn(char) -> bool {
    |c: char| !is_ws(c)
}

pub open spec fn not_char_pred(x: char) -> spec_fn(char) -> bool {
    |c: char| c != x
}

/// Index of the first `x` in `s`, or the length of `s` where there is none.
pub open spec fn find_char(s: Seq<char>, x: char) -> nat {
    span(s, not_char_pred(x))
}

pub proof fn lemma_span(s: Seq<char>, p: spec_fn(char) -> bool)
    ensures
        span(s, p) <= s.len(),
        forall|i: int| 0 <= i < span(s, p) ==> #[trigger] p(s[i]),
        span(s, p) < s.len() ==> !p(s[span(s, p) as int]),
    decreases s.len(),
{
    if s.len() > 0 && p(s[0]) {
        lemma_span(s.drop_first(), p);
        assert forall|i: int| 0 <= i < span(s, p) implies #[trigger] p(s[i]) by {
            if i > 0 {
                assert(s[i] == s.drop_first()[i - 1]);
            }
        }
    }
}

/// A span is determined by the two facts of `lemma_span`.
pub proof fn lemma_span_unique(s: Seq<char>, p: spec_fn(char) -> bool, k: int)
    requires
        0 <= k <= s.len(),
        forall|i: int| 0 <= i < k ==> #[trigger] p(s[i]),
        k < s.len() ==> !p(s[k]),
    ensures
        span(s, p) == k,
    decreases s.len(),
{
    if k > 0 {
        assert(p(s[0]));
        assert forall|i: int| 0 <= i < k - 1 implies #[trigger] p(s.drop_first()[i]) by {
            assert(p(s[i + 1]));
        }
        lemma_span_unique(s.drop_first(), p, k - 1);
    }
}

/// The span at `i` is `k` where the `k` characters from `i` satisfy `p` and
/// the next one, if any, does not.
pub proof fn lemma_span_at(m: Seq<char>, i: int, k: int, p: spec_fn(char) -> bool)
    requires
        0 <= i,
        0 <= k,
        i + k <= m.len(),
        forall|j: int| i <= j < i + k ==> #[trigger] p(m[j]),
        i + k < m.len() ==> !p(m[i + k]),
    ensures
        span(m.skip(i), p) == k,
{
    assert forall|j: int| 0 <= j < k implies #[trigger] p(m.skip(i)[j]) by {
        assert(m.skip(i)[j] == m[i + j]);
        assert(p(m[i + j]));
    }
    lemma_span_unique(m.skip(i), p, k);
}

/// Exec counterpart of `span` for the three predicates in use, from position `from`.
pub fn span_ws_from(s: &[char], from: usize) -> (k: usize)
    requires
        from <= s@.len(),
    ensures
        from <= k <= s@.len(),
        k - from == span(s@.skip(from as int), ws_pred()),
{
    let mut k: usize = from;
    while k < s.len() && is_whitespace(s[k])
        invariant
            from <= k <= s@.len(),
            forall|i: int| from <= i < k ==> is_ws(#[trigger] s@[i]),
        decreases s@.len() - k,
    {
        k = k + 1;
    }
    proof {
        let t = s@.skip(from as int);
        assert forall|i: int| 0 <= i < k - from implies #[trigger] ws_pred()(t[i]) by {
            assert(t[i] == s@[from + i]);
        }
        lemma_span_unique(t, ws_pred(), k - from);
    }
    k
}

pub fn span_non_ws_from(s: &[char], from: usize) -> (k: usize)
    requires
        from <= s@.len(),
    ensures
        from <= k <= s@.len(),
        k - from == span(s@.skip(from as int), non_ws_pred()),
{
    let mut k: usize = from;
    while k < s.len() && !is_whitespace(s[k])
        invariant
            from <= k <= s@.len(),
            forall|i: int| from <= i < k ==> !is_ws(#[trigger] s@[i]),
        decreases s@.len() - k,
    {
        k = k + 1;
    }
    proof {
        let t = s@.skip(from as int);
        assert forall|i: int| 0 <= i < k - from implies #[trigger] non_ws_pred()(t[i]) by {
            assert(t[i] == s@[from + i]);
        }
        lemma_span_unique(t, non_ws_pred(), k - from);
    }
    k
}

pub fn find_char_from(s: &[char], from: usize, x: char) -> (k: usize)
    requires
        from <= s@.len(),
    ensures
        from <= k <= s@.len(),
        k - from == find_char(s@.skip(from as int), x),
{
    let mut k: usize = from;
    while k < s.len() && s[k] != x
        invariant
            from <= k <= s@.len(),
            forall|i: int| from <= i < k ==> #[trigger] s@[i] != x,
        decreases s@.len() - k,
    {
        k = k + 1;
    }
    proof {
        let t = s@.skip(from as int);
        assert forall|i: int| 0 <= i < k - from implies #[trigger] not_char_pred(x)(t[i]) by {
            assert(t[i] == s@[from + i]);
        }
        lemma_span_unique(t, not_char_pred(x), k - from);
    }
    k
}

// ---------------------------------------------------------------------------
// Trimming
// ---------------------------------------------------------------------------

/// Length of the run of whitespace at the end of `s`.
pub open spec fn rspan_ws(s: Seq<char>) -> nat
    decreases s.len(),
{
    if s.len() == 0 || !is_ws(s.last()) {
        0
    } else {
        1 + rspan_ws(s.drop_last())
    }
}

pub open spec fn trim_start(s: Seq<char>) -> Seq<char> {
    s.skip(span(s, ws_pred()) as int)
}

pub open spec fn trim_end(s: Seq<char>) -> Seq<char> {
    s.take(s.len() - rspan_ws(s))
}

/// `str::trim`: leading and trailing whitespace removed.
pub open spec fn trim(s: Seq<char>) -> Seq<char> {
    trim_end(trim_start(s))
}

pub proof fn lemma_rspan_ws(s: Seq<char>)
    ensures
        rspan_ws(s) <= s.len(),
        forall|i: int| s.len() - rspan_ws(s) <= i < s.len() ==> is_ws(#[trigger] s[i]),
        rspan_ws(s) < s.len() ==> !is_ws(s[s.len() - rspan_ws(s) - 1]),
    decreases s.len(),
{
    if s.len() > 0 && is_ws(s.last()) {
        lemma_rspan_ws(s.drop_last());
        assert forall|i: int| s.len() - rspan_ws(s) <= i < s.len() implies is_ws(
            #[trigger] s[i],
        ) by {
            if i < s.len() - 1 {
                assert(s[i] == s.drop_last()[i]);
            }
        }
    }
}

pub proof fn lemma_rspan_ws_unique(s: Seq<char>, k: int)
    requires
        0 <= k <= s.len(),
        forall|i: int| s.len() - k <= i < s.len() ==> is_ws(#[trigger] s[i]),
        k < s.len() ==> !is_ws(s[s.len() - k - 1]),
    ensures
        rspan_ws(s) == k,
    decreases s.len(),
{
    if k > 0 {
        assert(is_ws(s[s.len() - 1]));
        assert forall|i: int|
            s.drop_last().len() - (k - 1) <= i < s.drop_last().len() implies is_ws(
            #[trigger] s.drop_last()[i],
        ) by {
            assert(s.drop_last()[i] == s[i]);
        }
        lemma_rspan_ws_unique(s.drop_last(), k - 1);
    }
}

/// A text that neither begins nor ends with whitespace is its own trim.
pub proof fn lemma_trim_unchanged(s: Seq<char>)
    requires
        s.len() > 0,
        !is_ws(s[0]),
        !is_ws(s.last()),
    ensures
        trim(s) == s,
{
    assert(span(s, ws_pred()) == 0);
    assert(s.skip(0) =~= s);
    assert(rspan_ws(s) == 0);
    assert(s.take(s.len() as int) =~= s);
}

/// The characters of `s` with leading and trailing whitespace removed.
pub fn trim_chars(s: &[char]) -> (r: Vec<char>)
    ensures
        r@ == trim(s@),
{
    let start = span_ws_from(s, 0);
    proof {
        assert(s@.skip(0) =~= s@);
    }
    let mut end: usize = s.len();
    while end > start && is_whitespace(s[end - 1])
        invariant
            start <= end <= s@.len(),
            forall|i: int| end <= i < s@.len() ==> is_ws(#[trigger] s@[i]),
        decreases end,
    {
        end = end - 1;
    }
    let mut r: Vec<char> = Vec::new();
    let mut i: usize = start;
    while i < end
        invariant
            start <= i <= end <= s@.len(),
            r@ =~= s@.subrange(start as int, i as int),
        decreases end - i,
    {
        r.push(s[i]);
        i = i + 1;
    }
    proof {
        let t = trim_start(s@);
        assert(t =~= s@.skip(start as int));
        assert forall|j: int| end - start <= j < t.len() implies is_ws(#[trigger] t[j]) by {
            assert(t[j] == s@[start + j]);
        }
        if end > start {
            assert(t[end - start - 1] == s@[end - 1]);
        }
        lemma_rspan_ws_unique(t, s@.len() - end);
        assert(trim(s@) =~= s@.subrange(start as int, end as int));
    }
    r
}

/// The contents of each vector of characters.
pub open spec fn view_all(v: Seq<Vec<char>>) -> Seq<Seq<char>> {
    v.map_values(|x: Vec<char>| x@)
}

// ---------------------------------------------------------------------------
// Words and lines
// ---------------------------------------------------------------------------

/// `str::split_whitespace`: the maximal runs of non-whitespace characters.
pub open spec fn words(s: Seq<char>) -> Seq<Seq<char>>
    decreases s.len(),
{
    if s.len() == 0 {
        seq![]
    } else if is_ws(s[0]) {
        words(s.drop_first())
    } else {
        let k = span(s, non_ws_pred());
        proof {
            lemma_span(s, non_ws_pred());
        }
        seq![s.take(k as int)] + words(s.skip(k as int))
    }
}

/// `str::lines`: the pieces between `\n`, a `\r` before a `\n` dropped, and no
/// empty piece after a final `\n`.
pub open spec fn lines(s: Seq<char>) -> Seq<Seq<char>>
    decreases s.len(),
{
    if s.len() == 0 {
        seq![]
    } else {
        let k = find_char(s, '\n');
        proof {
            lemma_span(s, not_char_pred('\n'));
        }
        if k == s.len() {
            seq![s]
        } else {
            let line = if k > 0 && s[k - 1] == '\r' {
                s.take(k - 1)
            } else {
                s.take(k as int)
            };
            seq![line] + lines(s.skip(k as int + 1))
        }
    }
}

proof fn lemma_words_skip(s: Seq<char>, i: int)
    requires
        0 <= i < s.len(),
        is_ws(s[i]),
    ensures
        words(s.skip(i)) == words(s.skip(i + 1)),
{
    let t = s.skip(i);
    assert(t[0] == s[i]);
    assert(t.drop_first() =~= s.skip(i + 1));
}

proof fn lemma_words_run(s: Seq<char>, i: int, j: int)
    requires
        0 <= i < j <= s.len(),
        !is_ws(s[i]),
        j - i == span(s.skip(i), non_ws_pred()),
    ensures
        words(s.skip(i)) == seq![s.subrange(i, j)] + words(s.skip(j)),
{
    let t = s.skip(i);
    assert(t[0] == s[i]);
    assert(t.take(j - i) =~= s.subrange(i, j));
    assert(t.skip(j - i) =~= s.skip(j));
}

pub fn slice_to_vec(s: &[char], from: usize, to: usize) -> (r: Vec<char>)
    requires
        from <= to <= s@.len(),
    ensures
        r@ == s@.subrange(from as int, to as int),
{
    let mut r: Vec<char> = Vec::new();
    let mut i: usize = from;
    while i < to
        invariant
            from <= i <= to <= s@.len(),
            r@ =~= s@.subrange(from as int, i as int),
        decreases to - i,
    {
        r.push(s[i]);
        i = i + 1;
    }
    r
}

/// Split on whitespace as `str::split_whitespace` does.
pub fn split_ws(s: &[char]) -> (r: Vec<Vec<char>>)
    ensures
        view_all(r@) == words(s@),
{
    let mut r: Vec<Vec<char>> = Vec::new();
    let mut i: usize = 0;
    proof {
        assert(s@.skip(0) =~= s@);
    }
    while i < s.len()
        invariant
            i <= s@.len(),
            view_all(r@) + words(s@.skip(i as int)) == words(s@),
        decreases s@.len() - i,
    {
        if is_whitespace(s[i]) {
            proof {
                lemma_words_skip(s@, i as int);
            }
            i = i + 1;
        } else {
            let j = span_non_ws_from(s, i);
            proof {
                lemma_span(s@.skip(i as int), non_ws_pred());
                assert(s@.skip(i as int)[0] == s@[i as int]);
                lemma_words_run(s@, i as int, j as int);
            }
            let w = slice_to_vec(s, i, j);
            let ghost old_r = view_all(r@);
            r.push(w);
            proof {
                assert(view_all(r@) =~= old_r.push(w@));
                assert(old_r.push(w@) + words(s@.skip(j as int)) =~= old_r + (seq![w@] + words(
                    s@.skip(j as int),
                )));
            }
            i = j;
        }
    }
    proof {
        assert(s@.skip(i as int).len() == 0);
        assert(view_all(r@) + words(s@.skip(i as int)) =~= view_all(r@));
    }
    r
}

proof fn lemma_lines_step(s: Seq<char>, i: int, k: int)
    requires
        0 <= i <= k < s.len(),
        k - i == find_char(s.skip(i), '\n'),
    ensures
        lines(s.skip(i)) == seq![
            if k > i && s[k - 1] == '\r' {
                s.subrange(i, k - 1)
            } else {
                s.subrange(i, k)
            },
        ] + lines(s.skip(k + 1)),
{
    let t = s.skip(i);
    assert(t.len() > 0);
    assert(t.skip(k - i + 1) =~= s.skip(k + 1));
    if k > i && s[k - 1] == '\r' {
        assert(t[k - i - 1] == s[k - 1]);
        assert(t.take(k - i - 1) =~= s.subrange(i, k - 1));
    } else {
        if k > i {
            assert(t[k - i - 1] == s[k - 1]);
        }
        assert(t.take(k - i) =~= s.subrange(i, k));
    }
}

/// Split into lines as `str::lines` does.
pub fn split_lines(s: &[char]) -> (r: Vec<Vec<char>>)
    ensures
        view_all(r@) == lines(s@),
{
    let mut r: Vec<Vec<char>> = Vec::new();
    let mut i: usize = 0;
    proof {
        assert(s@.skip(0) =~= s@);
    }
    while i < s.len()
        invariant
            i <= s@.len(),
            view_all(r@) + lines(s@.skip(i as int)) == lines(s@),
        decreases s@.len() - i,
    {
        let k = find_char_from(s, i, '\n');
        let ghost old_r = view_all(r@);
        if k == s.len() {
            let w = slice_to_vec(s, i, k);
            proof {
                assert(s@.skip(i as int) =~= s@.subrange(i as int, k as int));
            }
            r.push(w);
            proof {
                assert(view_all(r@) =~= old_r.push(w@));
                assert(s@.skip(k as int).len() == 0);
                assert(lines(s@.skip(k as int)) =~= Seq::<Seq<char>>::empty());
                assert(old_r + lines(s@.skip(i as int)) =~= view_all(r@) + lines(
                    s@.skip(k as int),
                ));
            }
            i = k;
        } else {
            let end = if k > i && s[k - 1] == '\r' {
                k - 1
            } else {
                k
            };
            proof {
                lemma_lines_step(s@, i as int, k as int);
            }
            let w = slice_to_vec(s, i, end);
            r.push(w);
            proof {
                assert(view_all(r@) =~= old_r.push(w@));
                assert(old_r.push(w@) + lines(s@.skip(k + 1)) =~= old_r + (seq![w@] + lines(
                    s@.skip(k + 1),
                )));
            }
            i = k + 1;
        }
    }
    proof {
        assert(s@.skip(i as int).len() == 0);
        assert(view_all(r@) + lines(s@.skip(i as int)) =~= view_all(r@));
    }
    r
}

// ---------------------------------------------------------------------------
// Comparing
// ---------------------------------------------------------------------------

pub fn chars_eq(a: &[char], b: &[char]) -> (r: bool)
    ensures
        r == (a@ == b@),
{
    if a.len() != b.len() {
        return false;
    }
    let mut i: usize = 0;
    while i < a.len()
        invariant
            a@.len() == b@.len(),
            i <= a@.len(),
            forall|j: int| 0 <= j < i ==> a@[j] == b@[j],
        decreases a@.len() - i,
    {
        if a[i] != b[i] {
            return false;
        }
        i = i + 1;
    }
    assert(a@ =~= b@);
    true
}

pub open spec fn is_prefix(p: Seq<char>, s: Seq<char>) -> bool {
    p.len() <= s.len() && s.take(p.len() as int) == p
}

pub fn starts_with(s: &[char], p: &[char]) -> (r: bool)
    ensures
        r == is_prefix(p@, s@),
{
    if p.len() > s.len() {
        return false;
    }
    let mut i: usize = 0;
    while i < p.len()
        invariant
            p@.len() <= s@.len(),
            i <= p@.len(),
            forall|j: int| 0 <= j < i ==> s@[j] == p@[j],
        decreases p@.len() - i,
    {
        if s[i] != p[i] {
            assert(s@.take(p@.len() as int)[i as int] != p@[i as int]);
            return false;
        }
        i = i + 1;
    }
    assert(s@.take(p@.len() as int) =~= p@);
    true
}

/// Whether the sequence `x` occurs among the elements of `v`.
pub fn contains_chars(v: &Vec<Vec<char>>, x: &[char]) -> (r: bool)
    ensures
        r == view_all(v@).contains(x@),
{
    let mut i: usize = 0;
    while i < v.len()
        invariant
            i <= v@.len(),
            forall|j: int| 0 <= j < i ==> view_all(v@)[j] != x@,
        decreases v@.len() - i,
    {
        if chars_eq(v[i].as_slice(), x) {
            assert(view_all(v@)[i as int] == x@);
            return true;
        }
        i = i + 1;
    }
    proof {
        if view_all(v@).contains(x@) {
            let j = choose|j: int| 0 <= j < view_all(v@).len() && view_all(v@)[j] == x@;
            assert(false);
        }
    }
    false
}

/// `lit` stands in `m` at `i`.
pub open spec fn lit_at(m: Seq<char>, i: int, lit: Seq<char>) -> bool {
    0 <= i && i + lit.len() <= m.len() && m.subrange(i, i + lit.len()) == lit
}

pub fn lit_at_exec(m: &[char], i: usize, lit: &str) -> (r: bool)
    ensures
        r == lit_at(m@, i as int, lit@),
{
    let l = str_chars(lit);
    if i > m.len() || l.len() > m.len() - i {
        return false;
    }
    let s = slice_to_vec(m, i, i + l.len());
    chars_eq(s.as_slice(), l.as_slice())
}

/// The length of the run of whitespace at `i`.
pub open spec fn ws_at(m: Seq<char>, i: int) -> int {
    span(m.skip(i), ws_pred()) as int
}

/// The length of the run of non-whitespace at `i`.
pub open spec fn word_at(m: Seq<char>, i: int) -> int {
    span(m.skip(i), non_ws_pred()) as int
}

// ---------------------------------------------------------------------------
// Decimal numbers
// ---------------------------------------------------------------------------

/// Value of a sequence of decimal digits.
pub open spec fn digits_value(s: Seq<char>) -> nat
    decreases s.len(),
{
    if s.len() == 0 {
        0
    } else {
        digits_value(s.drop_last()) * 10 + digit_value(s.last())
    }
}

pub open spec fn all_digits(s: Seq<char>) -> bool {
    forall|i: int| 0 <= i < s.len() ==> is_digit(#[trigger] s[i])
}

/// `str::parse::<u64>`: an optional `+`, then at least one decimal digit, the
/// value fitting in 64 bits.
pub open spec fn parse_u64_spec(s: Seq<char>) -> Option<u64> {
    let d = if s.len() > 0 && s[0] == '+' {
        s.drop_first()
    } else {
        s
    };
    if d.len() == 0 || !all_digits(d) || digits_value(d) > u64::MAX {
        None
    } else {
        Some(digits_value(d) as u64)
    }
}

/// `str::parse::<u32>`, with the same grammar as `parse_u64_spec`.
pub open spec fn parse_u32_spec(s: Seq<char>) -> Option<u32> {
    match parse_u64_spec(s) {
        Some(v) => if v <= u32::MAX {
            Some(v as u32)
        } else {
            None
        },
        None => None,
    }
}

pub proof fn lemma_digits_value_prefix(s: Seq<char>, i: int)
    requires
        0 <= i <= s.len(),
    ensures
        digits_value(s.take(i)) <= digits_value(s),
    decreases s.len() - i,
{
    if i < s.len() {
        lemma_digits_value_prefix(s, i + 1);
        assert(s.take(i + 1).drop_last() =~= s.take(i));
    } else {
        assert(s.take(i) =~= s);
    }
}

/// Parse an unsigned decimal number as `str::parse::<u64>` does.
pub fn parse_u64(s: &[char]) -> (r: Option<u64>)
    ensures
        r == parse_u64_spec(s@),
{
    let start: usize = if s.len() > 0 && s[0] == '+' {
        1
    } else {
        0
    };
    let ghost d = s@.skip(start as int);
    proof {
        if start == 1 {
            assert(d =~= s@.drop_first());
        } else {
            assert(d =~= s@);
        }
    }
    if start == s.len() {
        return None;
    }
    let mut val: u64 = 0;
    let mut i: usize = start;
    while i < s.len()
        invariant
            start <= i <= s@.len(),
            d == s@.skip(start as int),
            d == (if s@.len() > 0 && s@[0] == '+' {
                s@.drop_first()
            } else {
                s@
            }),
            all_digits(d.take(i - start)),
            val == digits_value(d.take(i - start)),
        decreases s@.len() - i,
    {
        let c = s[i];
        if c < '0' || c > '9' {
            proof {
                assert(d[i - start] == c);
                assert(!is_digit(d[i - start]));
                assert(!all_digits(d));
            }
            return None;
        }
        let dv: u64 = ((c as u32) - ('0' as u32)) as u64;
        proof {
            assert(d.take(i - start + 1).drop_last() =~= d.take(i - start));
            assert(d.take(i - start + 1).last() == c);
            assert forall|j: int| 0 <= j < i - start + 1 implies is_digit(
                #[trigger] d.take(i - start + 1)[j],
            ) by {
                if j < i - start {
                    assert(d.take(i - start + 1)[j] == d.take(i - start)[j]);
                }
            }
        }
        proof {
            assert(dv == digit_value(c));
            assert(digits_value(d.take(i - start + 1)) == val * 10 + dv);
        }
        match val.checked_mul(10) {
            Some(m) => match m.checked_add(dv) {
                Some(n) => {
                    val = n;
                },
                None => {
                    proof {
                        lemma_digits_value_prefix(d, i - start + 1);
                        assert(digits_value(d) > u64::MAX);
                    }
                    return None;
                },
            },
            None => {
                proof {
                    lemma_digits_value_prefix(d, i - start + 1);
                }
                return None;
            },
        }
        i = i + 1;
    }
    proof {
        assert(d.take(i - start) =~= d);
    }
    Some(val)
}

/// Parse an unsigned decimal number as `str::parse::<u32>` does.
pub fn parse_u32(s: &[char]) -> (r: Option<u32>)
    ensures
        r == parse_u32_spec(s@),
{
    match parse_u64(s) {
        Some(v) => if v <= 0xffff_ffff {
            Some(v as u32)
        } else {
            None
        },
        None => None,
    }
}

/// Decimal representation of `n`, as `format!("{}", n)` writes it.
pub open spec fn decimal(n: nat) -> Seq<char>
    decreases n,
{
    if n < 10 {
        seq![digit_char(n)]
    } else {
        decimal(n / 10).push(digit_char(n % 10))
    }
}

pub fn u64_to_decimal(n: u64) -> (r: Vec<char>)
    ensures
        r@ == decimal(n as nat),
    decreases n,
{
    let d: char = ((n % 10) as u8 + 48u8) as char;
    proof {
        assert(d == digit_char((n % 10) as nat));
    }
    if n < 10 {
        let mut r: Vec<char> = Vec::new();
        r.push(d);
        assert(r@ =~= seq![d]);
        r
    } else {
        let mut r = u64_to_decimal(n / 10);
        r.push(d);
        r
    }
}

pub proof fn lemma_decimal_digits(n: nat)
    ensures
        decimal(n).len() >= 1,
        all_digits(decimal(n)),
        digits_value(decimal(n)) == n,
        decimal(n)[0] != '+',
    decreases n,
{
    if n >= 10 {
        lemma_decimal_digits(n / 10);
        let s = decimal(n);
        assert(s.drop_last() =~= decimal(n / 10));
        assert(digit_value(digit_char(n % 10)) == n % 10);
        assert(s.last() == digit_char(n % 10));
        assert(digits_value(s) == digits_value(decimal(n / 10)) * 10 + n % 10);
        assert((n / 10) * 10 + n % 10 == n) by (nonlinear_arith);
        assert forall|i: int| 0 <= i < s.len() implies is_digit(#[trigger] s[i]) by {
            if i < s.len() - 1 {
                assert(s[i] == decimal(n / 10)[i]);
            }
        }
        assert(s[0] == decimal(n / 10)[0]);
    } else {
        let s = decimal(n);
        assert(s.drop_last() =~= Seq::<char>::empty());
        assert(digits_value(s.drop_last()) == 0);
        assert(s.last() == digit_char(n));
        assert(digit_value(digit_char(n)) == n);
        assert(digits_value(s) == digits_value(s.drop_last()) * 10 + digit_value(s.last()));
    }
}

/// A number written in decimal parses back to itself.
pub proof fn lemma_parse_decimal(n: u64)
    ensures
        parse_u64_spec(decimal(n as nat)) == Some(n),
{
    lemma_decimal_digits(n as nat);
}

// ---------------------------------------------------------------------------
// Hexadecimal numbers
// ---------------------------------------------------------------------------

/// Lower case hexadecimal representation of `n`, as `format!("{:x}", n)`.
pub open spec fn hex(n: nat) -> Seq<char>
    decreases n,
{
    if n < 16 {
        seq![hex_char(n)]
    } else {
        hex(n / 16).push(hex_char(n % 16))
    }
}

/// `format!("{:02x}", n)`: at least two hexadecimal digits, zero padded.
pub open spec fn hex2(n: nat) -> Seq<char> {
    if n < 16 {
        seq!['0', hex_char(n)]
    } else {
        hex(n)
    }
}

fn hex_digit(d: u64) -> (c: char)
    requires
        d < 16,
    ensures
        c == hex_char(d as nat),
{
    if d < 10 {
        ((d as u8) + 48u8) as char
    } else {
        ((d as u8) - 10 + 97u8) as char
    }
}

pub fn u64_to_hex(n: u64) -> (r: Vec<char>)
    ensures
        r@ == hex(n as nat),
    decreases n,
{
    let d = hex_digit(n % 16);
    if n < 16 {
        let mut r: Vec<char> = Vec::new();
        r.push(d);
        assert(r@ =~= seq![d]);
        r
    } else {
        let mut r = u64_to_hex(n / 16);
        r.push(d);
        r
    }
}

pub fn u64_to_hex2(n: u64) -> (r: Vec<char>)
    ensures
        r@ == hex2(n as nat),
{
    if n < 16 {
        let mut r: Vec<char> = Vec::new();
        r.push('0');
        r.push(hex_digit(n));
        assert(r@ =~= seq!['0', hex_char(n as nat)]);
        r
    } else {
        u64_to_hex(n)
    }
}

// ---------------------------------------------------------------------------
// Conversions between `str`, `String` and characters
// ---------------------------------------------------------------------------

/// The characters of `s`, in order.
pub(crate) fn str_chars(s: &str) -> (r: Vec<char>)
    ensures
        r@ == s@,
{
    broadcast use vstd::string::group_string_axioms;

    let mut r: Vec<char> = Vec::new();
    for c in it: s.chars()
        invariant
            it.seq() == s@,
            r@ == it.seq().take(it.index() as int),
    {
        r.push(c);
    }
    r
}

/// A `String` holding `v`; collects the characters with `FromIterator<char>`.
#[verifier::external_body]
pub(crate) fn string_from_chars(v: &[char]) -> (r: String)
    ensures
        r@ == v@,
{
    v.iter().collect()
}

/// Append the characters of a literal.
pub fn push_str(v: &mut Vec<char>, s: &str)
    ensures
        final(v)@ == old(v)@ + s@,
{
    let c = str_chars(s);
    let mut i: usize = 0;
    let ghost o = old(v)@;
    while i < c.len()
        invariant
            i <= c@.len(),
            c@ == s@,
            v@ =~= o + c@.take(i as int),
        decreases c@.len() - i,
    {
        v.push(c[i]);
        i = i + 1;
    }
    assert(c@.take(c@.len() as int) =~= c@);
}

/// Append characters.
pub fn push_chars(v: &mut Vec<char>, s: &[char])
    ensures
        final(v)@ == old(v)@ + s@,
{
    let mut i: usize = 0;
    let ghost o = old(v)@;
    while i < s.len()
        invariant
            i <= s@.len(),
            v@ =~= o + s@.take(i as int),
        decreases s@.len() - i,
    {
        v.push(s[i]);
        i = i + 1;
    }
    assert(s@.take(s@.len() as int) =~= s@);
}

} // verus!
