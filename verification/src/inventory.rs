//! The inventory of installed SDKs, read from the listing that the runtime
//! tool prints: one entry per line, `<version> [<base-directory>]`.

use crate::paths::{join_path, joined_path};
use crate::text::{
    chars_of, first_token, has_char, is_space, lemma_prefix_run, lemma_prefix_run_is,
    lemma_split_joined, lemma_suffix_run_is, position, scan_prefix, split,
    split_text, strip_one, texts, trim, trim_bounds, trim_start, CharClass,
};
use vstd::prelude::*;

verus! {

/// One SDK installation found on the machine.
#[derive(Debug, PartialEq, Eq)]
pub struct InstalledSdk {
    /// The version as the tool printed it, for display and for matching.
    pub version: String,
    /// The directory that holds this version's files.
    pub install_path: String,
}

/// What an [`InstalledSdk`] stands for in contracts.
pub struct SdkRecord {
    pub version: Seq<char>,
    pub install_path: Seq<char>,
}

impl View for InstalledSdk {
    type V = SdkRecord;

    open spec fn view(&self) -> SdkRecord {
        SdkRecord { version: self.version@, install_path: self.install_path@ }
    }
}

impl DeepView for InstalledSdk {
    type V = SdkRecord;

    open spec fn deep_view(&self) -> SdkRecord {
        self@
    }
}

impl SdkRecord {
    /// A record as the parser makes it: a version that is a single token
    /// without `[`, and a path joined from a base directory and the version.
    pub open spec fn well_formed(self) -> bool {
        &&& self.version.len() > 0
        &&& forall|i: int| 0 <= i < self.version.len() ==> !is_space(#[trigger] self.version[i])
        &&& !has_char(self.version, '[')
        &&& exists|base: Seq<char>|
            base.len() > 0 && self.install_path == #[trigger] joined_path(base, self.version)
    }
}

impl InstalledSdk {
    /// An independent copy of the record.
    pub fn duplicate(&self) -> (r: InstalledSdk)
        ensures
            r == *self,
    {
        InstalledSdk { version: self.version.clone(), install_path: self.install_path.clone() }
    }
}

/// The base directory written after the opening bracket: `after` without
/// surrounding white space, then without one closing bracket at its end,
/// then again without surrounding white space.
pub open spec fn bracketed_base(after: Seq<char>) -> Seq<char> {
    trim(strip_one(trim(after), ']'))
}

/// The record that one line of the listing gives, or `None` for a line that
/// is no entry: one without `[`, without a version, or without a base.
pub open spec fn parse_line(line: Seq<char>) -> Option<SdkRecord> {
    let i = position(line, '[') as int;
    if i >= line.len() {
        None
    } else {
        let version = first_token(line.take(i));
        let base = bracketed_base(line.skip(i + 1));
        if version.len() == 0 || base.len() == 0 {
            None
        } else {
            Some(SdkRecord { version, install_path: joined_path(base, version) })
        }
    }
}

/// The records of a whole listing: those of its lines, in the order of the
/// lines, with nothing merged.
pub open spec fn parse_inventory(text: Seq<char>) -> Seq<SdkRecord> {
    split(text, '\n').filter_map(|line: Seq<char>| parse_line(line))
}

/// Reads one line of the listing.
pub fn parse_sdk_line(line: &str) -> (r: Option<InstalledSdk>)
    ensures
        r.deep_view() == parse_line(line@),
        r matches Some(sdk) ==> sdk@.well_formed(),
{
    let v = chars_of(line);
    let n = v.len();
    let i = scan_prefix(&v, 0, n, CharClass::Except('['));
    assert(v@.subrange(0, n as int) =~= line@);
    if i >= n {
        return None;
    }
    let a = scan_prefix(&v, 0, i, CharClass::Space);
    let b = scan_prefix(&v, a, i, CharClass::NotSpace);
    let (p, q) = trim_bounds(&v, i + 1, n);
    let q2 = if q > p && v[q - 1] == ']' {
        q - 1
    } else {
        q
    };
    let (p3, q3) = trim_bounds(&v, p, q2);
    proof {
        let before = line@.take(i as int);
        assert(v@.subrange(0, i as int) =~= before);
        assert(trim_start(before) =~= v@.subrange(a as int, i as int));
        assert(first_token(before) =~= line@.subrange(a as int, b as int));
        let after = line@.skip(i + 1);
        assert(v@.subrange(i + 1, n as int) =~= after);
        assert(strip_one(trim(after), ']') =~= v@.subrange(p as int, q2 as int));
        assert(bracketed_base(after) =~= line@.subrange(p3 as int, q3 as int));
    }
    if a == b || p3 == q3 {
        return None;
    }
    let version = line.substring_char(a, b).to_owned();
    let base = line.substring_char(p3, q3);
    let install_path = join_path(base, version.as_str());
    proof {
        let k = CharClass::Except('[');
        lemma_token_shape(line@.take(i as int));
        lemma_prefix_run(line@, k);
        assert forall|j: int| 0 <= j < version@.len() implies k.holds(#[trigger] version@[j]) by {
            assert(version@[j] == line@[a + j]);
        }
        lemma_prefix_run_is(version@, k, version@.len() as int);
        assert(forall|j: int| 0 <= j < version@.len() ==> !is_space(#[trigger] version@[j]));
        assert(version@.len() > 0 && base@.len() > 0);
        assert(!has_char(version@, '['));
        assert(install_path@ == joined_path(base@, version@));
    }
    Some(InstalledSdk { version, install_path })
}

/// A token holds no white space.
pub proof fn lemma_token_shape(s: Seq<char>)
    ensures
        forall|i: int| 0 <= i < first_token(s).len() ==> !is_space(#[trigger] first_token(s)[i]),
{
    let t = trim_start(s);
    lemma_prefix_run(s, CharClass::Space);
    lemma_prefix_run(t, CharClass::NotSpace);
}

/// Reads the whole listing.
pub fn parse_sdk_list(text: &str) -> (sdks: Vec<InstalledSdk>)
    ensures
        sdks.deep_view() == parse_inventory(text@),
        forall|i: int| 0 <= i < sdks.len() ==> (#[trigger] sdks[i])@.well_formed(),
{
    let lines = split_text(text, '\n');
    let ghost f = |line: Seq<char>| parse_line(line);
    let ghost all = split(text@, '\n');
    let mut sdks: Vec<InstalledSdk> = Vec::new();
    let mut i: usize = 0;
    assert(all.take(0).filter_map(f) =~= Seq::<SdkRecord>::empty());
    while i < lines.len()
        invariant
            i <= lines.len(),
            texts(lines@) == all,
            all == split(text@, '\n'),
            f == |line: Seq<char>| parse_line(line),
            sdks.deep_view() =~= all.take(i as int).filter_map(f),
            forall|k: int| 0 <= k < sdks.len() ==> (#[trigger] sdks[k])@.well_formed(),
        decreases lines.len() - i,
    {
        let parsed = parse_sdk_line(lines[i].as_str());
        proof {
            assert(all[i as int] == lines[i as int]@);
            all.lemma_filter_map_take_succ(f, i as int);
        }
        match parsed {
            Some(sdk) => {
                sdks.push(sdk);
            },
            None => {},
        }
        i += 1;
    }
    assert(all.take(lines.len() as int) =~= all);
    sdks
}

/// Why no inventory could be read.
#[derive(Debug, PartialEq, Eq, Clone, Copy)]
pub enum QueryError {
    /// The tool ended its listing with a failure status.
    ListFailed,
}

impl QueryError {
    /// The error in words.
    pub fn message(&self) -> (r: &'static str)
        ensures
            r@ == "Failed to list SDKs"@,
    {
        "Failed to list SDKs"
    }
}

/// Reads the inventory from what the listing query gave back: its status and
/// its output. A failed query gives the error and nothing is read.
pub fn read_listing(success: bool, output: &str) -> (r: Result<Vec<InstalledSdk>, QueryError>)
    ensures
        match r {
            Ok(sdks) => {
                &&& success
                &&& sdks.deep_view() == parse_inventory(output@)
                &&& forall|i: int| 0 <= i < sdks.len() ==> (#[trigger] sdks[i])@.well_formed()
            },
            Err(e) => !success && e == QueryError::ListFailed,
        },
{
    if success {
        Ok(parse_sdk_list(output))
    } else {
        Err(QueryError::ListFailed)
    }
}

/// A line written as a version, a space, and a base directory in square
/// brackets gives exactly the record of that version in that directory. The
/// version is one token without `[`; the base neither begins nor ends with
/// white space.
pub proof fn lemma_well_formed_line(version: Seq<char>, base: Seq<char>)
    requires
        version.len() > 0,
        forall|i: int| 0 <= i < version.len() ==> !is_space(#[trigger] version[i]),
        forall|i: int| 0 <= i < version.len() ==> #[trigger] version[i] != '[',
        base.len() > 0,
        !is_space(base.first()),
        !is_space(base.last()),
    ensures
        parse_line(version + seq![' ', '['] + base + seq![']']) == Some(
            SdkRecord { version, install_path: joined_path(base, version) },
        ),
{
    let line = version + seq![' ', '['] + base + seq![']'];
    let n = version.len() as int;
    let bracket = CharClass::Except('[');
    assert forall|i: int| 0 <= i < n + 1 implies bracket.holds(#[trigger] line[i]) by {
        if i < n {
            assert(line[i] == version[i]);
        }
    }
    assert(line[n + 1] == '[');
    lemma_prefix_run_is(line, bracket, n + 1);

    let before = line.take(n + 1);
    assert(before =~= version.push(' '));
    assert(before[0] == version[0]);
    lemma_prefix_run_is(before, CharClass::Space, 0);
    assert(trim_start(before) =~= before);
    assert forall|i: int| 0 <= i < n implies CharClass::NotSpace.holds(#[trigger] before[i]) by {
        assert(before[i] == version[i]);
    }
    assert(before[n] == ' ');
    lemma_prefix_run_is(before, CharClass::NotSpace, n);
    assert(first_token(before) =~= version);

    let after = line.skip(n + 2);
    assert(after =~= base.push(']'));
    assert(after[0] == base[0]);
    lemma_prefix_run_is(after, CharClass::Space, 0);
    assert(trim_start(after) =~= after);
    lemma_suffix_run_is(after, CharClass::Space, 0);
    assert(trim(after) =~= after);
    assert(strip_one(after, ']') =~= base);
    lemma_prefix_run_is(base, CharClass::Space, 0);
    assert(trim_start(base) =~= base);
    lemma_suffix_run_is(base, CharClass::Space, 0);
    assert(trim(base) =~= base);
    assert(bracketed_base(after) == base);
}

/// A line gives no record where it has no `[`, where nothing but white
/// space stands before the `[`, or where nothing is left of what follows
/// it; a line that has all three gives one.
pub proof fn lemma_malformed_line(line: Seq<char>)
    ensures
        !has_char(line, '[') ==> parse_line(line) is None,
        has_char(line, '[') ==> (parse_line(line) is None <==> (first_token(
            line.take(position(line, '[') as int),
        ).len() == 0 || bracketed_base(line.skip(position(line, '[') as int + 1)).len() == 0)),
{
}

/// Mapping and filtering two sequences one after the other is the same as
/// doing so to their concatenation.
proof fn lemma_filter_map_concat<A, B>(x: Seq<A>, y: Seq<A>, f: spec_fn(A) -> Option<B>)
    ensures
        (x + y).filter_map(f) == x.filter_map(f) + y.filter_map(f),
    decreases y.len(),
{
    if y.len() == 0 {
        assert(x + y =~= x);
        assert(x.filter_map(f) + y.filter_map(f) =~= x.filter_map(f));
    } else {
        assert((x + y).drop_last() =~= x + y.drop_last());
        assert((x + y).last() == y.last());
        lemma_filter_map_concat(x, y.drop_last(), f);
        match f(y.last()) {
            Some(s) => {
                assert((x.filter_map(f) + y.drop_last().filter_map(f)) + seq![s] =~= x.filter_map(
                    f,
                ) + (y.drop_last().filter_map(f) + seq![s]));
            },
            None => {},
        }
    }
}

/// The records of two listings written one below the other are the records
/// of the first followed by the records of the second: no line keeps a
/// later one from being read, and nothing is reordered or merged.
pub proof fn lemma_listings_concatenate(first: Seq<char>, second: Seq<char>)
    ensures
        parse_inventory(first + seq!['\n'] + second) == parse_inventory(first) + parse_inventory(
            second,
        ),
{
    lemma_split_joined(first, second, '\n');
    lemma_filter_map_concat(
        split(first, '\n'),
        split(second, '\n'),
        |line: Seq<char>| parse_line(line),
    );
}

/// Every record of a listing comes from one of its lines, and records come
/// in the order of the lines that they come from: of two records, the
/// later one is read from a later line.
pub proof fn lemma_records_keep_line_order(text: Seq<char>, i: int, j: int) -> (lines: (int, int))
    requires
        0 <= i < j < parse_inventory(text).len(),
    ensures
        0 <= lines.0 < lines.1 < split(text, '\n').len(),
        parse_line(split(text, '\n')[lines.0]) == Some(parse_inventory(text)[i]),
        parse_line(split(text, '\n')[lines.1]) == Some(parse_inventory(text)[j]),
{
    lemma_order_in(split(text, '\n'), i, j)
}

/// The line that a record was read from.
proof fn lemma_source_in(lines: Seq<Seq<char>>, i: int) -> (k: int)
    requires
        0 <= i < lines.filter_map(|line: Seq<char>| parse_line(line)).len(),
    ensures
        0 <= k < lines.len(),
        parse_line(lines[k]) == Some(lines.filter_map(|line: Seq<char>| parse_line(line))[i]),
    decreases lines.len(),
{
    let f = |line: Seq<char>| parse_line(line);
    let rest = lines.drop_last();
    if i < rest.filter_map(f).len() {
        lemma_source_in(rest, i)
    } else {
        lines.len() - 1
    }
}

/// The lines that two records were read from, the earlier record first.
proof fn lemma_order_in(lines: Seq<Seq<char>>, i: int, j: int) -> (at: (int, int))
    requires
        0 <= i < j < lines.filter_map(|line: Seq<char>| parse_line(line)).len(),
    ensures
        0 <= at.0 < at.1 < lines.len(),
        parse_line(lines[at.0]) == Some(lines.filter_map(|line: Seq<char>| parse_line(line))[i]),
        parse_line(lines[at.1]) == Some(lines.filter_map(|line: Seq<char>| parse_line(line))[j]),
    decreases lines.len(),
{
    let f = |line: Seq<char>| parse_line(line);
    let rest = lines.drop_last();
    if j < rest.filter_map(f).len() {
        lemma_order_in(rest, i, j)
    } else {
        let p = lemma_source_in(rest, i);
        (p, lines.len() - 1)
    }
}

} // verus!
