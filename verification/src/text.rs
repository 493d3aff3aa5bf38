//! Character-level string helpers used by the parsers and formatters.
//!
//! Text is handled as sequences of `char`.  Each helper states its result
//! over a spec function on `Seq<char>` that follows the corresponding `str`
//! method of the standard library.

use vstd::prelude::*;

verus! {

broadcast use vstd::string::group_string_axioms;

/// Unicode `White_Space`, the property behind `char::is_whitespace`.
pub open spec fn is_ws(c: char) -> bool {
    let u = c as u32;
    ||| 0x09 <= u <= 0x0D
    ||| u == 0x20
    ||| u == 0x85
    ||| u == 0xA0
    ||| u == 0x1680
    ||| 0x2000 <= u <= 0x200A
    ||| u == 0x2028
    ||| u == 0x2029
    ||| u == 0x202F
    ||| u == 0x205F
    ||| u == 0x3000
}

/// Executable `char::is_whitespace`.
pub fn is_whitespace(c: char) -> (b: bool)
    ensures
        b == is_ws(c),
{
    let u = c as u32;
    (0x09 <= u && u <= 0x0D) || u == 0x20 || u == 0x85 || u == 0xA0 || u == 0x1680 || (0x2000
        <= u && u <= 0x200A) || u == 0x2028 || u == 0x2029 || u == 0x202F || u == 0x205F || u
        == 0x3000
}

/// The characters of `s`, in order.
pub fn chars_of(s: &str) -> (v: Vec<char>)
    ensures
        v@ == s@,
{
    let mut v: Vec<char> = Vec::new();
    for c in it: s.chars()
        invariant
            v@ == it.seq().take(it.index()),
            it.seq() == s@,
    {
        v.push(c);
        assert(v@ =~= it.seq().take(it.index() + 1));
    }
    v
}

/// Builds a `String` from characters (std's `FromIterator<char>` for `String`).
#[verifier::external_body]
pub(crate) fn string_of(v: &[char]) -> (s: String)
    ensures
        s@ == v@,
{
    v.iter().collect()
}

/// A copy of `s[i..j]`.
pub fn slice_chars(s: &[char], i: usize, j: usize) -> (r: Vec<char>)
    requires
        i <= j <= s@.len(),
    ensures
        r@ == s@.subrange(i as int, j as int),
{
    let mut r: Vec<char> = Vec::new();
    let mut k: usize = i;
    while k < j
        invariant
            i <= k <= j <= s@.len(),
            r@ == s@.subrange(i as int, k as int),
        decreases j - k,
    {
        r.push(s[k]);
        k = k + 1;
        assert(r@ =~= s@.subrange(i as int, k as int));
    }
    r
}

/// Appends all of `b` to `r`.
pub fn push_all(r: &mut Vec<char>, b: &[char])
    ensures
        final(r)@ == old(r)@ + b@,
{
    let mut k: usize = 0;
    while k < b.len()
        invariant
            k <= b@.len(),
            r@ == old(r)@ + b@.take(k as int),
        decreases b.len() - k,
    {
        r.push(b[k]);
        k = k + 1;
        assert(r@ =~= old(r)@ + b@.take(k as int));
    }
    assert(b@.take(b@.len() as int) =~= b@);
}

/// Character-wise equality.
pub fn chars_eq(a: &[char], b: &[char]) -> (e: bool)
    ensures
        e == (a@ == b@),
{
    if a.len() != b.len() {
        return false;
    }
    let mut k: usize = 0;
    while k < a.len()
        invariant
            a@.len() == b@.len(),
            k <= a@.len(),
            forall|j: int| 0 <= j < k ==> a@[j] == b@[j],
        decreases a.len() - k,
    {
        if a[k] != b[k] {
            return false;
        }
        k = k + 1;
    }
    assert(a@ =~= b@);
    true
}

/// Character views of a vector of character buffers.
pub open spec fn views(v: Seq<Vec<char>>) -> Seq<Seq<char>> {
    v.map_values(|x: Vec<char>| x@)
}

/// `s` starts with `p`.
pub open spec fn has_prefix(s: Seq<char>, p: Seq<char>) -> bool {
    p.len() <= s.len() && s.take(p.len() as int) == p
}

/// `s` ends with `p`.
pub open spec fn has_suffix(s: Seq<char>, p: Seq<char>) -> bool {
    p.len() <= s.len() && s.skip(s.len() - p.len()) == p
}

/// `p` occurs in `s` at position `i`.
pub open spec fn occurs_at(s: Seq<char>, p: Seq<char>, i: int) -> bool {
    0 <= i && i + p.len() <= s.len() && s.subrange(i, i + p.len()) == p
}

/// `p` occurs somewhere in `s` (`str::contains` with a string pattern).
pub open spec fn contains(s: Seq<char>, p: Seq<char>) -> bool {
    exists|i: int| occurs_at(s, p, i)
}

/// Executable `starts_with`.
pub fn starts_with(s: &[char], p: &[char]) -> (b: bool)
    ensures
        b == has_prefix(s@, p@),
{
    if p.len() > s.len() {
        return false;
    }
    let mut k: usize = 0;
    while k < p.len()
        invariant
            p@.len() <= s@.len(),
            k <= p@.len(),
            forall|j: int| 0 <= j < k ==> s@[j] == p@[j],
        decreases p.len() - k,
    {
        if s[k] != p[k] {
            assert(s@.take(p@.len() as int)[k as int] != p@[k as int]);
            return false;
        }
        k = k + 1;
    }
    assert(s@.take(p@.len() as int) =~= p@);
    true
}

/// Executable `ends_with`.
pub fn ends_with(s: &[char], p: &[char]) -> (b: bool)
    ensures
        b == has_suffix(s@, p@),
{
    if p.len() > s.len() {
        return false;
    }
    let n = s.len();
    let off: usize = n - p.len();
    let mut k: usize = 0;
    while k < p.len()
        invariant
            n == s@.len(),
            p@.len() <= s@.len(),
            off == s@.len() - p@.len(),
            k <= p@.len(),
            forall|j: int| 0 <= j < k ==> s@[off + j] == p@[j],
        decreases p.len() - k,
    {
        if s[off + k] != p[k] {
            assert(s@.skip(off as int)[k as int] != p@[k as int]);
            return false;
        }
        k = k + 1;
    }
    assert(s@.skip(off as int) =~= p@);
    true
}

/// Whether `p` occurs at position `i` of `s`.
pub fn matches_at(s: &[char], p: &[char], i: usize) -> (b: bool)
    requires
        i <= s@.len(),
    ensures
        b == occurs_at(s@, p@, i as int),
{
    let n = s.len();
    if p.len() > n - i {
        return false;
    }
    let mut k: usize = 0;
    while k < p.len()
        invariant
            n == s@.len(),
            i + p@.len() <= s@.len(),
            k <= p@.len(),
            forall|j: int| 0 <= j < k ==> s@[i + j] == p@[j],
        decreases p.len() - k,
    {
        if s[i + k] != p[k] {
            assert(s@.subrange(i as int, i + p@.len())[k as int] != p@[k as int]);
            return false;
        }
        k = k + 1;
    }
    assert(s@.subrange(i as int, i + p@.len()) =~= p@);
    true
}

/// Executable `contains` (naive search).
pub fn contains_chars(s: &[char], p: &[char]) -> (b: bool)
    ensures
        b == contains(s@, p@),
{
    let n = s.len();
    if p.len() > n {
        return false;
    }
    let last: usize = n - p.len();
    let mut i: usize = 0;
    loop
        invariant
            n == s@.len(),
            last + p@.len() == n,
            i <= last,
            forall|j: int| 0 <= j < i ==> !occurs_at(s@, p@, j),
        decreases last - i,
    {
        if matches_at(s, p, i) {
            return true;
        }
        if i == last {
            assert forall|j: int| !occurs_at(s@, p@, j) by {
                if 0 <= j && j + p@.len() <= s@.len() {
                    assert(j <= i);
                }
            }
            return false;
        }
        i = i + 1;
    }
}

/// The characters of a string literal or other `&str`, compared to `p`.
pub fn str_contains(s: &[char], p: &str) -> (b: bool)
    ensures
        b == contains(s@, p@),
{
    let pv = chars_of(p);
    contains_chars(s, &pv)
}

/// Number of leading characters of `s` that satisfy `p`.
pub open spec fn lead_count(s: Seq<char>, p: spec_fn(char) -> bool) -> nat
    decreases s.len(),
{
    if s.len() > 0 && p(s[0]) {
        1 + lead_count(s.drop_first(), p)
    } else {
        0
    }
}

/// Number of trailing characters of `s` that satisfy `p`.
pub open spec fn trail_count(s: Seq<char>, p: spec_fn(char) -> bool) -> nat
    decreases s.len(),
{
    if s.len() > 0 && p(s.last()) {
        1 + trail_count(s.drop_last(), p)
    } else {
        0
    }
}

/// `s` with the leading and trailing characters that satisfy `p` removed
/// (`str::trim_matches` with a predicate).
pub open spec fn trim_by(s: Seq<char>, p: spec_fn(char) -> bool) -> Seq<char> {
    let rest = s.skip(lead_count(s, p) as int);
    rest.take(rest.len() - trail_count(rest, p))
}

/// The predicate "is whitespace".
pub open spec fn ws_pred() -> spec_fn(char) -> bool {
    |c: char| is_ws(c)
}

/// `str::trim`.
pub open spec fn trim_ws(s: Seq<char>) -> Seq<char> {
    trim_by(s, ws_pred())
}

/// `lead_count` is the first position whose character fails `p`.
pub proof fn lemma_lead_count(s: Seq<char>, p: spec_fn(char) -> bool, i: int)
    requires
        0 <= i <= s.len(),
        forall|j: int| 0 <= j < i ==> p(#[trigger] s[j]),
        i == s.len() || !p(s[i]),
    ensures
        lead_count(s, p) == i,
    decreases i,
{
    if i > 0 {
        let t = s.drop_first();
        assert forall|j: int| 0 <= j < i - 1 implies p(#[trigger] t[j]) by {
            assert(t[j] == s[j + 1]);
        }
        lemma_lead_count(t, p, i - 1);
    }
}

/// `trail_count` counts back to the last character that fails `p`.
pub proof fn lemma_trail_count(s: Seq<char>, p: spec_fn(char) -> bool, j: int)
    requires
        0 <= j <= s.len(),
        forall|k: int| j <= k < s.len() ==> p(#[trigger] s[k]),
        j == 0 || !p(s[j - 1]),
    ensures
        trail_count(s, p) == s.len() - j,
    decreases s.len() - j,
{
    if j < s.len() {
        let t = s.drop_last();
        assert forall|k: int| j <= k < t.len() implies p(#[trigger] t[k]) by {
            assert(t[k] == s[k]);
        }
        lemma_trail_count(t, p, j);
    }
}

/// `trim_by` keeps exactly `s[i..j]` when `i` and `j` are the first and last
/// positions that fail `p`.
pub proof fn lemma_trim_by(s: Seq<char>, p: spec_fn(char) -> bool, i: int, j: int)
    requires
        0 <= i <= j <= s.len(),
        forall|k: int| 0 <= k < i ==> p(#[trigger] s[k]),
        i == s.len() || !p(s[i]),
        forall|k: int| j <= k < s.len() ==> p(#[trigger] s[k]),
        j == i || !p(s[j - 1]),
        i == s.len() ==> j == i,
    ensures
        trim_by(s, p) == s.subrange(i, j),
{
    lemma_lead_count(s, p, i);
    let rest = s.skip(i);
    assert forall|k: int| j - i <= k < rest.len() implies p(#[trigger] rest[k]) by {
        assert(rest[k] == s[k + i]);
    }
    if j - i > 0 {
        assert(rest[j - i - 1] == s[j - 1]);
    }
    lemma_trail_count(rest, p, j - i);
    assert(rest.take(j - i) =~= s.subrange(i, j));
}

/// Bounds `(i, j)` of `trim_ws(s)` inside `s`.
pub fn trim_bounds(s: &[char]) -> (r: (usize, usize))
    ensures
        r.0 <= r.1 <= s@.len(),
        trim_ws(s@) == s@.subrange(r.0 as int, r.1 as int),
{
    let n = s.len();
    let mut i: usize = 0;
    while i < n && is_whitespace(s[i])
        invariant
            i <= n == s@.len(),
            forall|k: int| 0 <= k < i ==> is_ws(#[trigger] s@[k]),
        decreases n - i,
    {
        i = i + 1;
    }
    let mut j: usize = n;
    while j > i && is_whitespace(s[j - 1])
        invariant
            i <= j <= n == s@.len(),
            forall|k: int| j <= k < n ==> is_ws(#[trigger] s@[k]),
        decreases j - i,
    {
        j = j - 1;
    }
    proof {
        let p = ws_pred();
        assert forall|k: int| 0 <= k < i implies p(#[trigger] s@[k]) by {}
        assert forall|k: int| j <= k < n implies p(#[trigger] s@[k]) by {}
        if i < n {
            assert(!p(s@[i as int]));
        }
        if j > i {
            assert(!p(s@[j - 1]));
        }
        lemma_trim_by(s@, p, i as int, j as int);
    }
    (i, j)
}

/// Executable `str::trim`.
pub fn trim(s: &[char]) -> (r: Vec<char>)
    ensures
        r@ == trim_ws(s@),
{
    let (i, j) = trim_bounds(s);
    slice_chars(s, i, j)
}

/// Pieces of `s` between occurrences of `sep`, starting with `cur` already
/// collected (`str::split` with a `char`).
pub open spec fn split_from(s: Seq<char>, sep: char, cur: Seq<char>) -> Seq<Seq<char>>
    decreases s.len(),
{
    if s.len() == 0 {
        seq![cur]
    } else if s[0] == sep {
        seq![cur] + split_from(s.drop_first(), sep, seq![])
    } else {
        split_from(s.drop_first(), sep, cur.push(s[0]))
    }
}

/// `str::split(sep)`, always at least one piece.
pub open spec fn split_on(s: Seq<char>, sep: char) -> Seq<Seq<char>> {
    split_from(s, sep, seq![])
}

/// Executable `split`.
pub fn split_chars(s: &[char], sep: char) -> (r: Vec<Vec<char>>)
    ensures
        views(r@) == split_on(s@, sep),
{
    let mut out: Vec<Vec<char>> = Vec::new();
    let mut cur: Vec<char> = Vec::new();
    let mut i: usize = 0;
    assert(s@.skip(0) =~= s@);
    assert(views(out@) =~= Seq::<Seq<char>>::empty());
    assert(cur@ =~= Seq::<char>::empty());
    while i < s.len()
        invariant
            i <= s@.len(),
            views(out@) + split_from(s@.skip(i as int), sep, cur@) == split_on(s@, sep),
        decreases s.len() - i,
    {
        let ghost before = views(out@);
        assert(s@.skip(i as int).drop_first() =~= s@.skip(i + 1));
        if s[i] == sep {
            let ghost c = cur@;
            out.push(cur);
            cur = Vec::new();
            assert(views(out@) =~= before.push(c));
            assert(split_from(s@.skip(i as int), sep, c) == seq![c] + split_from(
                s@.skip(i + 1),
                sep,
                seq![],
            ));
            assert(views(out@) + split_from(s@.skip(i + 1), sep, cur@) =~= before + (seq![c]
                + split_from(s@.skip(i + 1), sep, seq![])));
        } else {
            cur.push(s[i]);
        }
        i = i + 1;
    }
    let ghost before = views(out@);
    let ghost c = cur@;
    out.push(cur);
    assert(views(out@) =~= before + seq![c]);
    out
}

/// Words of `s` separated by whitespace, `cur` being the word under way
/// (`str::split_whitespace`).
pub open spec fn words_from(s: Seq<char>, cur: Seq<char>) -> Seq<Seq<char>>
    decreases s.len(),
{
    let done = if cur.len() > 0 {
        seq![cur]
    } else {
        seq![]
    };
    if s.len() == 0 {
        done
    } else if is_ws(s[0]) {
        done + words_from(s.drop_first(), seq![])
    } else {
        words_from(s.drop_first(), cur.push(s[0]))
    }
}

/// `str::split_whitespace`.
pub open spec fn words(s: Seq<char>) -> Seq<Seq<char>> {
    words_from(s, seq![])
}

/// Executable `split_whitespace`.
pub fn split_words(s: &[char]) -> (r: Vec<Vec<char>>)
    ensures
        views(r@) == words(s@),
{
    let mut out: Vec<Vec<char>> = Vec::new();
    let mut cur: Vec<char> = Vec::new();
    let mut i: usize = 0;
    assert(s@.skip(0) =~= s@);
    assert(views(out@) =~= Seq::<Seq<char>>::empty());
    assert(cur@ =~= Seq::<char>::empty());
    while i < s.len()
        invariant
            i <= s@.len(),
            views(out@) + words_from(s@.skip(i as int), cur@) == words(s@),
        decreases s.len() - i,
    {
        let ghost before = views(out@);
        assert(s@.skip(i as int).drop_first() =~= s@.skip(i + 1));
        if is_whitespace(s[i]) {
            if cur.len() > 0 {
                let ghost c = cur@;
                out.push(cur);
                cur = Vec::new();
                assert(views(out@) =~= before + seq![c]);
                assert(words_from(s@.skip(i as int), c) == seq![c] + words_from(
                    s@.skip(i + 1),
                    seq![],
                ));
                assert(views(out@) + words_from(s@.skip(i + 1), cur@) =~= before + (seq![c]
                    + words_from(s@.skip(i + 1), seq![])));
            } else {
                assert(cur@ =~= Seq::<char>::empty());
                assert(words_from(s@.skip(i as int), cur@) == Seq::<Seq<char>>::empty()
                    + words_from(s@.skip(i + 1), seq![]));
                assert(Seq::<Seq<char>>::empty() + words_from(s@.skip(i + 1), seq![])
                    =~= words_from(s@.skip(i + 1), seq![]));
                assert(cur@ =~= seq![]);
            }
        } else {
            let ghost c = cur@;
            cur.push(s[i]);
            assert(words_from(s@.skip(i as int), c) == words_from(s@.skip(i + 1), c.push(s@[i as int])));
        }
        i = i + 1;
    }
    if cur.len() > 0 {
        let ghost before = views(out@);
        let ghost c = cur@;
        out.push(cur);
        assert(views(out@) =~= before + seq![c]);
    } else {
        assert(views(out@) =~= views(out@) + words_from(s@.skip(i as int), cur@));
    }
    out
}

/// A line's text without the `'\r'` that preceded its `'\n'`.
pub open spec fn strip_cr(line: Seq<char>) -> Seq<char> {
    if line.len() > 0 && line.last() == '\r' {
        line.drop_last()
    } else {
        line
    }
}

/// Lines of `s`, `cur` being the line under way (`str::lines`).
pub open spec fn lines_from(s: Seq<char>, cur: Seq<char>) -> Seq<Seq<char>>
    decreases s.len(),
{
    if s.len() == 0 {
        if cur.len() > 0 {
            seq![cur]
        } else {
            seq![]
        }
    } else if s[0] == '\n' {
        seq![strip_cr(cur)] + lines_from(s.drop_first(), seq![])
    } else {
        lines_from(s.drop_first(), cur.push(s[0]))
    }
}

/// `str::lines`.
pub open spec fn lines(s: Seq<char>) -> Seq<Seq<char>> {
    lines_from(s, seq![])
}

/// Executable `lines`.
pub fn split_lines(s: &[char]) -> (r: Vec<Vec<char>>)
    ensures
        views(r@) == lines(s@),
{
    let mut out: Vec<Vec<char>> = Vec::new();
    let mut cur: Vec<char> = Vec::new();
    let mut i: usize = 0;
    assert(s@.skip(0) =~= s@);
    assert(views(out@) =~= Seq::<Seq<char>>::empty());
    assert(cur@ =~= Seq::<char>::empty());
    while i < s.len()
        invariant
            i <= s@.len(),
            views(out@) + lines_from(s@.skip(i as int), cur@) == lines(s@),
        decreases s.len() - i,
    {
        let ghost before = views(out@);
        assert(s@.skip(i as int).drop_first() =~= s@.skip(i + 1));
        if s[i] == '\n' {
            let n = cur.len();
            if n > 0 && cur[n - 1] == '\r' {
                cur.pop();
            }
            let ghost c = cur@;
            out.push(cur);
            cur = Vec::new();
            assert(views(out@) =~= before + seq![c]);
            assert(views(out@) + lines_from(s@.skip(i + 1), cur@) =~= before + (seq![c]
                + lines_from(s@.skip(i + 1), seq![])));
        } else {
            cur.push(s[i]);
        }
        i = i + 1;
    }
    if cur.len() > 0 {
        let ghost before = views(out@);
        let ghost c = cur@;
        out.push(cur);
        assert(views(out@) =~= before + seq![c]);
    } else {
        assert(views(out@) =~= views(out@) + lines_from(s@.skip(i as int), cur@));
    }
    out
}

/// The predicate "differs from `c`".
pub open spec fn other_than(c: char) -> spec_fn(char) -> bool {
    |x: char| x != c
}

/// Position of the first `c` in `s`, or `s.len()` when there is none.
pub open spec fn index_of_char(s: Seq<char>, c: char) -> nat {
    lead_count(s, other_than(c))
}

/// Executable `index_of_char`.
pub fn find_char(s: &[char], c: char) -> (i: usize)
    ensures
        i == index_of_char(s@, c),
        i <= s@.len(),
        i < s@.len() ==> s@[i as int] == c,
        forall|k: int| 0 <= k < i ==> s@[k] != c,
{
    let mut i: usize = 0;
    while i < s.len() && s[i] != c
        invariant
            i <= s@.len(),
            forall|k: int| 0 <= k < i ==> s@[k] != c,
        decreases s.len() - i,
    {
        i = i + 1;
    }
    proof {
        let p = other_than(c);
        assert forall|k: int| 0 <= k < i implies p(#[trigger] s@[k]) by {}
        lemma_lead_count(s@, p, i as int);
    }
    i
}

/// Appends a `&str` to a character buffer.
pub fn push_str(r: &mut Vec<char>, s: &str)
    ensures
        final(r)@ == old(r)@ + s@,
{
    let v = chars_of(s);
    push_all(r, &v);
}

/// Equality of two string slices.
pub fn str_eq(a: &str, b: &str) -> (e: bool)
    ensures
        e == (a@ == b@),
{
    let va = chars_of(a);
    let vb = chars_of(b);
    chars_eq(&va, &vb)
}

/// `s` with every leading copy of `p` removed (`str::trim_start_matches`
/// with a string pattern).
pub open spec fn strip_prefixes(s: Seq<char>, p: Seq<char>) -> Seq<char>
    decreases s.len(),
{
    if p.len() > 0 && has_prefix(s, p) {
        strip_prefixes(s.skip(p.len() as int), p)
    } else {
        s
    }
}

/// Executable `trim_start_matches` for a string pattern.
pub fn trim_start_matches(s: &[char], p: &str) -> (r: Vec<char>)
    ensures
        r@ == strip_prefixes(s@, p@),
{
    let pv = chars_of(p);
    if pv.len() == 0 {
        return slice_chars(s, 0, s.len());
    }
    let mut i: usize = 0;
    let n = s.len();
    assert(s@.skip(0) =~= s@);
    loop
        invariant
            i <= s@.len(),
            n == s@.len(),
            pv@ == p@,
            pv@.len() > 0,
            strip_prefixes(s@, p@) == strip_prefixes(s@.skip(i as int), p@),
        ensures
            i <= s@.len(),
            strip_prefixes(s@, p@) == s@.skip(i as int),
        decreases s@.len() - i,
    {
        let m = matches_at(s, &pv, i);
        if !m {
            assert(!has_prefix(s@.skip(i as int), p@)) by {
                if has_prefix(s@.skip(i as int), p@) {
                    assert(s@.skip(i as int).take(pv@.len() as int) =~= s@.subrange(
                        i as int,
                        i + pv@.len(),
                    ));
                }
            }
            break;
        }
        assert(s@.skip(i as int).take(pv@.len() as int) =~= s@.subrange(i as int, i + pv@.len()));
        assert(s@.skip(i as int).skip(pv@.len() as int) =~= s@.skip(i + pv@.len()));
        i = i + pv.len();
    }
    assert(s@.subrange(i as int, s@.len() as int) =~= s@.skip(i as int));
    slice_chars(s, i, s.len())
}

/// ASCII lower-case of a character.
pub open spec fn ascii_lower(c: char) -> char {
    if 'A' <= c <= 'Z' {
        ((c as u32) + 32) as char
    } else {
        c
    }
}

/// ASCII case-insensitive equality (`str::eq_ignore_ascii_case`).
pub open spec fn eq_ascii_ci(a: Seq<char>, b: Seq<char>) -> bool {
    a.len() == b.len() && forall|i: int| 0 <= i < a.len() ==> ascii_lower(a[i]) == ascii_lower(b[i])
}

fn lower_char(c: char) -> (r: char)
    ensures
        r == ascii_lower(c),
{
    if 'A' <= c && c <= 'Z' {
        ((c as u8) + 32) as char
    } else {
        c
    }
}

/// Executable `eq_ignore_ascii_case`.
pub fn eq_ignore_ascii_case(a: &[char], b: &str) -> (e: bool)
    ensures
        e == eq_ascii_ci(a@, b@),
{
    let bv = chars_of(b);
    if a.len() != bv.len() {
        return false;
    }
    let mut k: usize = 0;
    while k < a.len()
        invariant
            a@.len() == bv@.len(),
            bv@ == b@,
            k <= a@.len(),
            forall|j: int| 0 <= j < k ==> ascii_lower(a@[j]) == ascii_lower(bv@[j]),
        decreases a.len() - k,
    {
        if lower_char(a[k]) != lower_char(bv[k]) {
            return false;
        }
        k = k + 1;
    }
    true
}


/// `s` with every occurrence of `p`, left to right and without overlap,
/// replaced by `r` (`str::replace`, for a non-empty pattern).
pub open spec fn replaced(s: Seq<char>, p: Seq<char>, r: Seq<char>) -> Seq<char>
    decreases s.len(),
{
    if s.len() == 0 || p.len() == 0 {
        s
    } else if has_prefix(s, p) {
        r + replaced(s.skip(p.len() as int), p, r)
    } else {
        seq![s[0]] + replaced(s.drop_first(), p, r)
    }
}

/// Executable `replaced`.
pub fn replace_all(s: &[char], p: &str, r: &str) -> (out: Vec<char>)
    requires
        p@.len() > 0,
    ensures
        out@ == replaced(s@, p@, r@),
{
    let pv = chars_of(p);
    let mut out: Vec<char> = Vec::new();
    let mut i: usize = 0;
    assert(s@.skip(0) =~= s@);
    while i < s.len()
        invariant
            i <= s@.len(),
            pv@ == p@,
            p@.len() > 0,
            out@ + replaced(s@.skip(i as int), p@, r@) == replaced(s@, p@, r@),
        decreases s.len() - i,
    {
        let ghost rest = s@.skip(i as int);
        if matches_at(s, &pv, i) {
            assert(rest.take(p@.len() as int) =~= s@.subrange(i as int, i + p@.len()));
            assert(rest.skip(p@.len() as int) =~= s@.skip(i + p@.len()));
            let ghost before = out@;
            push_str(&mut out, r);
            assert(out@ + replaced(s@.skip(i + p@.len()), p@, r@) =~= before + replaced(rest, p@, r@));
            i = i + pv.len();
        } else {
            proof {
                if p@.len() <= rest.len() {
                    assert(rest.take(p@.len() as int) =~= s@.subrange(i as int, i + p@.len()));
                }
            }
            assert(rest.drop_first() =~= s@.skip(i + 1));
            let ghost before = out@;
            out.push(s[i]);
            assert(out@ + replaced(s@.skip(i + 1), p@, r@) =~= before + replaced(rest, p@, r@));
            i = i + 1;
        }
    }
    assert(out@ + replaced(s@.skip(i as int), p@, r@) =~= out@);
    out
}

} // verus!
