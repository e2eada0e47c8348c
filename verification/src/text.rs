//! Character-level text handling: classes of characters, runs, trimming,
//! tokens and splitting.
//!
//! Everything here is stated over `Seq<char>`, the view of `str` and `String`.

use vstd::prelude::*;

verus! {

/// Whether `c` carries the Unicode `White_Space` property.
pub open spec fn is_space(c: char) -> bool {
    let u = c as u32;
    ||| 0x09 <= u <= 0x0D
    ||| u == 0x20
    ||| u == 0x85
    ||| u == 0xA0
    ||| u == 0x1680
    ||| 0x2000 <= u <= 0x200A
    ||| u == 0x2028
    ||| u == 0x2029
    ||| u == 0x202F
    ||| u == 0x205F
    ||| u == 0x3000
}

/// Decides whether a character is white space.
pub fn is_whitespace(c: char) -> (r: bool)
    ensures
        r == is_space(c),
{
    let u: u32 = c as u32;
    (0x09 <= u && u <= 0x0D) || u == 0x20 || u == 0x85 || u == 0xA0 || u == 0x1680 || (0x2000 <= u
        && u <= 0x200A) || u == 0x2028 || u == 0x2029 || u == 0x202F || u == 0x205F || u == 0x3000
}

/// A set of characters that a scan can stay within.
#[derive(Clone, Copy, Debug)]
pub enum CharClass {
    /// White space.
    Space,
    /// Everything but white space.
    NotSpace,
    /// Everything but the given character.
    Except(char),
}

impl CharClass {
    /// Whether `c` belongs to the class.
    pub open spec fn holds(self, c: char) -> bool {
        match self {
            CharClass::Space => is_space(c),
            CharClass::NotSpace => !is_space(c),
            CharClass::Except(d) => c != d,
        }
    }

    /// Decides membership of `c`.
    pub fn test(&self, c: char) -> (r: bool)
        ensures
            r == self.holds(c),
    {
        match self {
            CharClass::Space => is_whitespace(c),
            CharClass::NotSpace => !is_whitespace(c),
            CharClass::Except(d) => c != *d,
        }
    }
}

/// Length of the longest prefix of `s` whose characters all belong to `k`.
pub open spec fn prefix_run(s: Seq<char>, k: CharClass) -> nat
    decreases s.len(),
{
    if s.len() > 0 && k.holds(s.first()) {
        1 + prefix_run(s.drop_first(), k)
    } else {
        0
    }
}

/// Length of the longest suffix of `s` whose characters all belong to `k`.
pub open spec fn suffix_run(s: Seq<char>, k: CharClass) -> nat
    decreases s.len(),
{
    if s.len() > 0 && k.holds(s.last()) {
        1 + suffix_run(s.drop_last(), k)
    } else {
        0
    }
}

/// Index of the first `c` in `s`, or `s.len()` where there is none.
pub open spec fn position(s: Seq<char>, c: char) -> nat {
    prefix_run(s, CharClass::Except(c))
}

/// Whether `c` occurs in `s`.
pub open spec fn has_char(s: Seq<char>, c: char) -> bool {
    position(s, c) < s.len()
}

/// `s` without its leading white space.
pub open spec fn trim_start(s: Seq<char>) -> Seq<char> {
    s.skip(prefix_run(s, CharClass::Space) as int)
}

/// `s` without its trailing white space.
pub open spec fn trim_end(s: Seq<char>) -> Seq<char> {
    s.take(s.len() - suffix_run(s, CharClass::Space))
}

/// `s` without leading and trailing white space.
pub open spec fn trim(s: Seq<char>) -> Seq<char> {
    trim_end(trim_start(s))
}

/// `s` without its last character where that is `c`, else `s`: one `c` is
/// taken off at most.
pub open spec fn strip_one(s: Seq<char>, c: char) -> Seq<char> {
    if s.len() > 0 && s.last() == c {
        s.drop_last()
    } else {
        s
    }
}

/// The first white-space-delimited token of `s`; empty where `s` is blank.
pub open spec fn first_token(s: Seq<char>) -> Seq<char> {
    let t = trim_start(s);
    t.take(prefix_run(t, CharClass::NotSpace) as int)
}

/// The pieces of `s` between occurrences of `sep`, in order. A text without
/// `sep` is one piece; `n` separators always give `n + 1` pieces.
pub open spec fn split(s: Seq<char>, sep: char) -> Seq<Seq<char>>
    decreases s.len(),
{
    let i = position(s, sep) as int;
    if i >= s.len() {
        seq![s]
    } else {
        seq![s.take(i)] + split(s.skip(i + 1), sep)
    }
}

/// Whether `s` begins with `p`.
pub open spec fn starts_with(s: Seq<char>, p: Seq<char>) -> bool {
    p.len() <= s.len() && s.take(p.len() as int) == p
}

/// The views of a sequence of strings.
pub open spec fn texts(v: Seq<String>) -> Seq<Seq<char>> {
    Seq::new(v.len(), |i: int| v[i]@)
}

/// A prefix run ends at the first character outside the class.
pub proof fn lemma_prefix_run(s: Seq<char>, k: CharClass)
    ensures
        prefix_run(s, k) <= s.len(),
        forall|i: int| 0 <= i < prefix_run(s, k) ==> k.holds(#[trigger] s[i]),
        prefix_run(s, k) < s.len() ==> !k.holds(s[prefix_run(s, k) as int]),
    decreases s.len(),
{
    if s.len() > 0 && k.holds(s.first()) {
        let t = s.drop_first();
        lemma_prefix_run(t, k);
        assert forall|i: int| 0 <= i < prefix_run(s, k) implies k.holds(#[trigger] s[i]) by {
            if i > 0 {
                assert(s[i] == t[i - 1]);
            }
        }
        if prefix_run(s, k) < s.len() {
            assert(s[prefix_run(s, k) as int] == t[prefix_run(t, k) as int]);
        }
    }
}

/// The only index at which a prefix run can end.
pub proof fn lemma_prefix_run_is(s: Seq<char>, k: CharClass, n: int)
    requires
        0 <= n <= s.len(),
        forall|i: int| 0 <= i < n ==> k.holds(#[trigger] s[i]),
        n < s.len() ==> !k.holds(s[n]),
    ensures
        prefix_run(s, k) == n,
    decreases s.len(),
{
    if n > 0 {
        let t = s.drop_first();
        assert(k.holds(s[0]));
        assert forall|i: int| 0 <= i < n - 1 implies k.holds(#[trigger] t[i]) by {
            assert(t[i] == s[i + 1]);
        }
        lemma_prefix_run_is(t, k, n - 1);
    }
}

/// The only length that a suffix run can have.
pub proof fn lemma_suffix_run_is(s: Seq<char>, k: CharClass, n: int)
    requires
        0 <= n <= s.len(),
        forall|i: int| s.len() - n <= i < s.len() ==> k.holds(#[trigger] s[i]),
        n < s.len() ==> !k.holds(s[s.len() - n - 1]),
    ensures
        suffix_run(s, k) == n,
    decreases s.len(),
{
    if n > 0 {
        let t = s.drop_last();
        assert(k.holds(s[s.len() - 1]));
        assert forall|i: int| t.len() - (n - 1) <= i < t.len() implies k.holds(#[trigger] t[i]) by {
            assert(t[i] == s[i]);
        }
        lemma_suffix_run_is(t, k, n - 1);
    }
}

/// Splitting a text that was joined with the separator gives the pieces of
/// both parts, those of the first part first.
pub proof fn lemma_split_joined(a: Seq<char>, b: Seq<char>, sep: char)
    ensures
        split(a + seq![sep] + b, sep) == split(a, sep) + split(b, sep),
    decreases a.len(),
{
    let k = CharClass::Except(sep);
    let whole = a + seq![sep] + b;
    let i = position(a, sep) as int;
    lemma_prefix_run(a, k);
    assert forall|j: int| 0 <= j < i implies k.holds(#[trigger] whole[j]) by {
        assert(whole[j] == a[j]);
    }
    if i >= a.len() {
        assert(whole[i] == sep);
        lemma_prefix_run_is(whole, k, i);
        assert(whole.take(i) =~= a);
        assert(whole.skip(i + 1) =~= b);
        assert(seq![a] + split(b, sep) =~= split(a, sep) + split(b, sep));
    } else {
        assert(whole[i] == a[i]);
        lemma_prefix_run_is(whole, k, i);
        assert(whole.take(i) =~= a.take(i));
        assert(whole.skip(i + 1) =~= a.skip(i + 1) + seq![sep] + b);
        lemma_split_joined(a.skip(i + 1), b, sep);
        assert(seq![a.take(i)] + (split(a.skip(i + 1), sep) + split(b, sep)) =~= split(a, sep)
            + split(b, sep));
    }
}

/// The characters of a string slice, in order.
pub fn chars_of(s: &str) -> (v: Vec<char>)
    ensures
        v@ == s@,
{
    let mut v: Vec<char> = Vec::new();
    for c in it: s.chars()
        invariant
            v@ == it.seq().take(it.index()),
    {
        v.push(c);
    }
    v
}

/// Scans `v[lo..hi]` forward and returns the index at which the run of
/// characters in `k` that starts at `lo` ends.
pub(crate) fn scan_prefix(v: &Vec<char>, lo: usize, hi: usize, k: CharClass) -> (i: usize)
    requires
        lo <= hi <= v.len(),
    ensures
        lo <= i <= hi,
        i - lo == prefix_run(v@.subrange(lo as int, hi as int), k),
{
    let mut i: usize = lo;
    while i < hi && k.test(v[i])
        invariant
            lo <= i <= hi <= v.len(),
            forall|j: int| lo <= j < i ==> k.holds(#[trigger] v@[j]),
        decreases hi - i,
    {
        i += 1;
    }
    proof {
        let s = v@.subrange(lo as int, hi as int);
        assert forall|j: int| 0 <= j < i - lo implies k.holds(#[trigger] s[j]) by {
            assert(s[j] == v@[lo + j]);
        }
        lemma_prefix_run_is(s, k, i - lo);
    }
    i
}

/// Scans `v[lo..hi]` backward and returns the index at which the run of
/// characters in `k` that ends at `hi` starts.
pub(crate) fn scan_suffix(v: &Vec<char>, lo: usize, hi: usize, k: CharClass) -> (j: usize)
    requires
        lo <= hi <= v.len(),
    ensures
        lo <= j <= hi,
        hi - j == suffix_run(v@.subrange(lo as int, hi as int), k),
{
    let mut j: usize = hi;
    while j > lo && k.test(v[j - 1])
        invariant
            lo <= j <= hi <= v.len(),
            forall|i: int| j <= i < hi ==> k.holds(#[trigger] v@[i]),
        decreases j - lo,
    {
        j -= 1;
    }
    proof {
        let s = v@.subrange(lo as int, hi as int);
        assert forall|i: int| s.len() - (hi - j) <= i < s.len() implies k.holds(#[trigger] s[i]) by {
            assert(s[i] == v@[lo + i]);
        }
        lemma_suffix_run_is(s, k, hi - j);
    }
    j
}

/// The bounds of `v[lo..hi]` once leading and trailing white space is left out.
pub(crate) fn trim_bounds(v: &Vec<char>, lo: usize, hi: usize) -> (r: (usize, usize))
    requires
        lo <= hi <= v.len(),
    ensures
        lo <= r.0 <= r.1 <= hi,
        v@.subrange(r.0 as int, r.1 as int) == trim(v@.subrange(lo as int, hi as int)),
{
    let a = scan_prefix(v, lo, hi, CharClass::Space);
    let b = scan_suffix(v, a, hi, CharClass::Space);
    proof {
        let s = v@.subrange(lo as int, hi as int);
        assert(trim_start(s) =~= v@.subrange(a as int, hi as int));
        assert(trim(s) =~= v@.subrange(a as int, b as int));
    }
    (a, b)
}

/// A copy of `s` without leading and trailing white space.
pub fn trimmed(s: &str) -> (r: String)
    ensures
        r@ == trim(s@),
{
    let v = chars_of(s);
    let (a, b) = trim_bounds(&v, 0, v.len());
    assert(v@.subrange(0, v.len() as int) =~= s@);
    s.substring_char(a, b).to_owned()
}

/// The first white-space-delimited token of `s`, empty where there is none.
pub fn first_word(s: &str) -> (r: String)
    ensures
        r@ == first_token(s@),
{
    let v = chars_of(s);
    let a = scan_prefix(&v, 0, v.len(), CharClass::Space);
    let b = scan_prefix(&v, a, v.len(), CharClass::NotSpace);
    proof {
        assert(v@.subrange(0, v.len() as int) =~= s@);
        assert(trim_start(s@) =~= v@.subrange(a as int, v.len() as int));
        assert(first_token(s@) =~= s@.subrange(a as int, b as int));
    }
    s.substring_char(a, b).to_owned()
}

/// Decides whether `c` occurs in `s`.
pub fn contains_char(s: &str, c: char) -> (r: bool)
    ensures
        r == has_char(s@, c),
{
    let v = chars_of(s);
    let i = scan_prefix(&v, 0, v.len(), CharClass::Except(c));
    assert(v@.subrange(0, v.len() as int) =~= s@);
    i < v.len()
}

/// Decides whether `s` begins with `p`.
pub fn begins_with(s: &str, p: &str) -> (r: bool)
    ensures
        r == starts_with(s@, p@),
{
    let v = chars_of(s);
    let w = chars_of(p);
    if w.len() > v.len() {
        return false;
    }
    let mut i: usize = 0;
    while i < w.len()
        invariant
            i <= w.len() <= v.len(),
            v@ == s@,
            w@ == p@,
            forall|j: int| 0 <= j < i ==> v@[j] == w@[j],
        decreases w.len() - i,
    {
        if v[i] != w[i] {
            proof {
                assert(s@.take(p@.len() as int)[i as int] == s@[i as int]);
            }
            return false;
        }
        i += 1;
    }
    assert(s@.take(p@.len() as int) =~= p@);
    true
}

/// Decides whether two texts hold the same characters.
pub fn same_text(a: &str, b: &str) -> (r: bool)
    ensures
        r == (a@ == b@),
{
    let v = chars_of(a);
    let w = chars_of(b);
    if v.len() != w.len() {
        return false;
    }
    let mut i: usize = 0;
    while i < v.len()
        invariant
            i <= v.len() == w.len(),
            v@ == a@,
            w@ == b@,
            forall|j: int| 0 <= j < i ==> v@[j] == w@[j],
        decreases v.len() - i,
    {
        if v[i] != w[i] {
            return false;
        }
        i += 1;
    }
    assert(a@ =~= b@);
    true
}

/// The pieces of `s` between occurrences of `sep`, in order.
pub fn split_text(s: &str, sep: char) -> (pieces: Vec<String>)
    ensures
        texts(pieces@) == split(s@, sep),
{
    let v = chars_of(s);
    let n = v.len();
    let mut pieces: Vec<String> = Vec::new();
    let mut start: usize = 0;
    proof {
        assert(s@.skip(0) =~= s@);
        assert(texts(pieces@) + split(s@, sep) =~= split(s@, sep));
    }
    loop
        invariant
            start <= n,
            n == v.len(),
            v@ == s@,
            texts(pieces@) + split(s@.skip(start as int), sep) == split(s@, sep),
        decreases n - start,
    {
        let end = scan_prefix(&v, start, n, CharClass::Except(sep));
        let piece = s.substring_char(start, end).to_owned();
        proof {
            let rest = s@.skip(start as int);
            assert(v@.subrange(start as int, n as int) =~= rest);
            assert(rest.take(end - start) =~= piece@);
            assert(texts(pieces@.push(piece)) =~= texts(pieces@) + seq![piece@]);
            if end < n {
                assert(rest.skip(end - start + 1) =~= s@.skip(end + 1));
                assert(texts(pieces@) + (seq![piece@] + split(s@.skip(end + 1), sep)) =~= texts(
                    pieces@.push(piece),
                ) + split(s@.skip(end + 1), sep));
            } else {
                assert(rest.take(end - start) =~= rest);
                assert(texts(pieces@) + seq![rest] =~= texts(pieces@.push(piece)));
            }
        }
        pieces.push(piece);
        if end >= n {
            return pieces;
        }
        start = end + 1;
    }
}

} // verus!
