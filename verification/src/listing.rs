//! The list of installed versions: the first token of each line of the
//! tool's listing, each version once, in ascending order.

use crate::report::ReportLine;
use crate::text::{chars_of, first_token, first_word, same_text, split, split_text, texts};
use vstd::prelude::*;

verus! {

/// Whether `a` comes before `b` in the lexicographic order of their code
/// points. A proper prefix comes before what it is a prefix of.
pub open spec fn text_less(a: Seq<char>, b: Seq<char>) -> bool
    decreases a.len(),
{
    if b.len() == 0 {
        false
    } else if a.len() == 0 {
        true
    } else if a.first() != b.first() {
        (a.first() as u32) < (b.first() as u32)
    } else {
        text_less(a.drop_first(), b.drop_first())
    }
}

/// Whether each text comes before all that follow it.
pub open spec fn strictly_increasing(v: Seq<Seq<char>>) -> bool {
    forall|i: int, j: int| 0 <= i < j < v.len() ==> text_less(#[trigger] v[i], #[trigger] v[j])
}

/// Whether `version` is the first token of some line of `listing`.
pub open spec fn is_listed_version(listing: Seq<char>, version: Seq<char>) -> bool {
    &&& version.len() > 0
    &&& exists|k: int|
        0 <= k < split(listing, '\n').len() && first_token(#[trigger] split(listing, '\n')[k])
            == version
}

/// Of two different texts, one comes before the other.
pub proof fn lemma_less_total(a: Seq<char>, b: Seq<char>)
    ensures
        text_less(a, b) || a == b || text_less(b, a),
    decreases a.len(),
{
    if a.len() > 0 && b.len() > 0 && a.first() == b.first() {
        lemma_less_total(a.drop_first(), b.drop_first());
        if a.drop_first() == b.drop_first() {
            assert(a =~= seq![a.first()] + a.drop_first());
            assert(b =~= seq![b.first()] + b.drop_first());
        }
    } else if a.len() == 0 && b.len() == 0 {
        assert(a =~= b);
    } else if a.len() > 0 && b.len() > 0 {
        vstd::utf8::char_u32_cast(a.first(), a.first() as u32);
        vstd::utf8::char_u32_cast(b.first(), b.first() as u32);
    }
}

/// The order is transitive.
pub proof fn lemma_less_transitive(a: Seq<char>, b: Seq<char>, c: Seq<char>)
    requires
        text_less(a, b),
        text_less(b, c),
    ensures
        text_less(a, c),
    decreases a.len(),
{
    if a.len() > 0 && a.first() == b.first() && b.first() == c.first() {
        lemma_less_transitive(a.drop_first(), b.drop_first(), c.drop_first());
    }
}

/// Decides whether `a` comes before `b` in the order of [`text_less`].
pub fn text_precedes(a: &str, b: &str) -> (r: bool)
    ensures
        r == text_less(a@, b@),
{
    let v = chars_of(a);
    let w = chars_of(b);
    let mut i: usize = 0;
    assert(a@.skip(0) =~= a@ && b@.skip(0) =~= b@);
    while i < v.len() && i < w.len()
        invariant
            i <= v.len(),
            i <= w.len(),
            v@ == a@,
            w@ == b@,
            text_less(a@, b@) == text_less(a@.skip(i as int), b@.skip(i as int)),
        decreases v.len() - i,
    {
        proof {
            assert(a@.skip(i as int).drop_first() =~= a@.skip(i + 1));
            assert(b@.skip(i as int).drop_first() =~= b@.skip(i + 1));
        }
        if v[i] != w[i] {
            return (v[i] as u32) < (w[i] as u32);
        }
        i += 1;
    }
    i < w.len()
}

/// The versions that the listing shows, each once, in ascending order.
pub fn installed_versions(listing: &str) -> (versions: Vec<String>)
    ensures
        strictly_increasing(texts(versions@)),
        forall|t: Seq<char>| texts(versions@).contains(t) <==> is_listed_version(listing@, t),
{
    let lines = split_text(listing, '\n');
    let ghost all = split(listing@, '\n');
    let mut versions: Vec<String> = Vec::new();
    let mut i: usize = 0;
    while i < lines.len()
        invariant
            i <= lines.len(),
            texts(lines@) == all,
            all == split(listing@, '\n'),
            strictly_increasing(texts(versions@)),
            forall|t: Seq<char>| #[trigger]
                texts(versions@).contains(t) <==> t.len() > 0 && exists|k: int|
                    0 <= k < i && first_token(#[trigger] all[k]) == t,
        decreases lines.len() - i,
    {
        let token = first_word(lines[i].as_str());
        assert(token@ == first_token(all[i as int])) by {
            assert(all[i as int] == lines[i as int]@);
        }
        if token.as_str().unicode_len() > 0 {
            insert_version(&mut versions, token);
        }
        i += 1;
    }
    versions
}

/// The lines that show the installed versions, from what the listing query
/// gave back: one result line for each version, or one diagnostic where the
/// query failed.
pub fn versions_report(success: bool, listing: &str) -> (lines: Vec<ReportLine>)
    ensures
        success ==> {
            &&& strictly_increasing(line_texts(lines@))
            &&& forall|t: Seq<char>|
                line_texts(lines@).contains(t) <==> is_listed_version(listing@, t)
            &&& forall|i: int| 0 <= i < lines.len() ==> !(#[trigger] lines[i]).diagnostic
        },
        !success ==> lines.len() == 1 && lines[0].diagnostic && lines[0].text@
            == "Failed to list SDK versions"@,
{
    let mut lines: Vec<ReportLine> = Vec::new();
    if !success {
        lines.push(ReportLine { text: "Failed to list SDK versions".to_owned(), diagnostic: true });
        return lines;
    }
    let versions = installed_versions(listing);
    let mut i: usize = 0;
    while i < versions.len()
        invariant
            i <= versions.len(),
            lines.len() == i,
            forall|k: int|
                0 <= k < i ==> !(#[trigger] lines[k]).diagnostic && lines[k].text@ == versions[k]@,
        decreases versions.len() - i,
    {
        lines.push(ReportLine { text: versions[i].clone(), diagnostic: false });
        i += 1;
    }
    assert(line_texts(lines@) =~= texts(versions@));
    lines
}

/// The texts of a sequence of lines.
pub open spec fn line_texts(lines: Seq<ReportLine>) -> Seq<Seq<char>> {
    Seq::new(lines.len(), |i: int| lines[i].text@)
}

/// Puts `version` at its place in an ascending list, unless it is there.
fn insert_version(versions: &mut Vec<String>, version: String)
    requires
        strictly_increasing(texts(old(versions)@)),
    ensures
        strictly_increasing(texts(final(versions)@)),
        forall|t: Seq<char>| #[trigger]
            texts(final(versions)@).contains(t) <==> texts(old(versions)@).contains(t) || t
                == version@,
{
    let ghost before = texts(versions@);
    let mut p: usize = 0;
    while p < versions.len() && text_precedes(versions[p].as_str(), version.as_str())
        invariant
            p <= versions.len(),
            texts(versions@) == before,
            forall|k: int| 0 <= k < p ==> text_less(#[trigger] before[k], version@),
        decreases versions.len() - p,
    {
        assert(before[p as int] == versions[p as int]@);
        p += 1;
    }
    if p < versions.len() && same_text(versions[p].as_str(), version.as_str()) {
        assert(before[p as int] == version@);
        return ;
    }
    proof {
        let after = before.insert(p as int, version@);
        assert(texts(versions@.insert(p as int, version)) =~= after);
        if p < before.len() {
            assert(before[p as int] == versions[p as int]@);
            lemma_less_total(before[p as int], version@);
        }
        assert forall|i: int, j: int| 0 <= i < j < after.len() implies text_less(
            #[trigger] after[i],
            #[trigger] after[j],
        ) by {
            if j == p {
            } else if i == p {
                if j > p + 1 {
                    assert(text_less(before[p as int], before[j - 1]));
                    lemma_less_transitive(version@, before[p as int], before[j - 1]);
                }
            } else {
                let bi = if i < p { i } else { i - 1 };
                let bj = if j < p { j } else { j - 1 };
                assert(text_less(before[bi], before[bj]));
            }
        }
        assert forall|t: Seq<char>| #[trigger] after.contains(t) <==> before.contains(t) || t
            == version@ by {
            if after.contains(t) {
                let k = choose|k: int| 0 <= k < after.len() && after[k] == t;
                if k < p {
                    assert(before[k] == t);
                } else if k > p {
                    assert(before[k - 1] == t);
                }
            }
            if before.contains(t) {
                let k = choose|k: int| 0 <= k < before.len() && before[k] == t;
                if k < p {
                    assert(after[k] == t);
                } else {
                    assert(after[k + 1] == t);
                }
            }
            if t == version@ {
                assert(after[p as int] == t);
            }
        }
    }
    versions.insert(p, version);
}

} // verus!
