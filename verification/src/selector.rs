//! Version selectors: which installed SDKs a removal request names.

use crate::inventory::{InstalledSdk, SdkRecord};
use crate::text::{begins_with, contains_char, has_char, same_text, starts_with};
use vstd::prelude::*;

verus! {

/// A removal request.
#[derive(Debug, PartialEq, Eq)]
pub enum VersionSelector {
    /// Every installed SDK.
    All,
    /// The SDKs whose version is exactly this text.
    Exact(String),
    /// The SDKs whose version starts with this major number and a dot.
    MajorPrefix(String),
}

/// What a [`VersionSelector`] stands for in contracts.
pub enum SelectorModel {
    All,
    Exact(Seq<char>),
    MajorPrefix(Seq<char>),
}

impl View for VersionSelector {
    type V = SelectorModel;

    open spec fn view(&self) -> SelectorModel {
        match self {
            VersionSelector::All => SelectorModel::All,
            VersionSelector::Exact(v) => SelectorModel::Exact(v@),
            VersionSelector::MajorPrefix(m) => SelectorModel::MajorPrefix(m@),
        }
    }
}

impl DeepView for VersionSelector {
    type V = SelectorModel;

    open spec fn deep_view(&self) -> SelectorModel {
        self@
    }
}

impl SelectorModel {
    /// Whether the selector names an SDK of the given version. Versions are
    /// compared as they are written: no case folding, no normalisation.
    pub open spec fn matches(self, version: Seq<char>) -> bool {
        match self {
            SelectorModel::All => true,
            SelectorModel::Exact(v) => version == v,
            SelectorModel::MajorPrefix(m) => starts_with(version, m.push('.')),
        }
    }

    /// A selector as [`selector_for`] makes it: a text with a dot is taken
    /// as a full version, one without as a major number.
    pub open spec fn well_formed(self) -> bool {
        match self {
            SelectorModel::All => true,
            SelectorModel::Exact(v) => has_char(v, '.'),
            SelectorModel::MajorPrefix(m) => !has_char(m, '.'),
        }
    }
}

/// The selector that a version text stands for.
pub open spec fn selector_for(text: Seq<char>) -> SelectorModel {
    if has_char(text, '.') {
        SelectorModel::Exact(text)
    } else {
        SelectorModel::MajorPrefix(text)
    }
}

/// The selector that a request stands for: `all` wins over a version, and a
/// request with neither names nothing.
pub open spec fn requested(version: Option<Seq<char>>, all: bool) -> Option<SelectorModel> {
    if all {
        Some(SelectorModel::All)
    } else {
        match version {
            Some(text) => Some(selector_for(text)),
            None => None,
        }
    }
}

/// The entries of `inventory` that `selector` names, in inventory order,
/// with duplicates kept.
pub open spec fn selected(inventory: Seq<SdkRecord>, selector: SelectorModel) -> Seq<SdkRecord> {
    inventory.filter(|r: SdkRecord| selector.matches(r.version))
}

impl VersionSelector {
    /// Reads a version text as a selector.
    pub fn parse(text: &str) -> (r: VersionSelector)
        ensures
            r@ == selector_for(text@),
            r@.well_formed(),
    {
        if contains_char(text, '.') {
            VersionSelector::Exact(text.to_owned())
        } else {
            VersionSelector::MajorPrefix(text.to_owned())
        }
    }

    /// Reads a removal request: an optional version text and the `all` flag.
    pub fn from_request(version: Option<&str>, all: bool) -> (r: Option<VersionSelector>)
        ensures
            r.deep_view() == requested(
                match version {
                    Some(text) => Some(text@),
                    None => None,
                },
                all,
            ),
            r matches Some(s) ==> s@.well_formed(),
    {
        if all {
            Some(VersionSelector::All)
        } else {
            match version {
                Some(text) => Some(VersionSelector::parse(text)),
                None => None,
            }
        }
    }

    /// Decides whether the selector names an SDK of the given version.
    pub fn matches(&self, version: &str) -> (r: bool)
        ensures
            r == self@.matches(version@),
    {
        match self {
            VersionSelector::All => true,
            VersionSelector::Exact(v) => same_text(version, v.as_str()),
            VersionSelector::MajorPrefix(m) => {
                let mut prefix = m.clone();
                prefix.append(".");
                proof {
                    reveal_strlit(".");
                    assert(prefix@ =~= m@.push('.'));
                }
                begins_with(version, prefix.as_str())
            },
        }
    }
}

/// The entries of `inventory` that `selector` names, in inventory order.
pub fn select_targets(inventory: &Vec<InstalledSdk>, selector: &VersionSelector) -> (targets: Vec<
    InstalledSdk,
>)
    ensures
        targets.deep_view() == selected(inventory.deep_view(), selector@),
{
    let ghost inv = inventory.deep_view();
    let ghost pred = |r: SdkRecord| selector@.matches(r.version);
    let mut targets: Vec<InstalledSdk> = Vec::new();
    let mut i: usize = 0;
    proof {
        reveal(Seq::filter);
        assert(inv.take(0).filter(pred) =~= Seq::<SdkRecord>::empty());
    }
    while i < inventory.len()
        invariant
            i <= inventory.len(),
            inv == inventory.deep_view(),
            pred == |r: SdkRecord| selector@.matches(r.version),
            targets.deep_view() =~= inv.take(i as int).filter(pred),
        decreases inventory.len() - i,
    {
        let entry = &inventory[i];
        proof {
            assert(inv.take(i + 1) =~= inv.take(i as int).push(inv[i as int]));
            inv.take(i as int).lemma_filter_push(inv[i as int], pred);
            assert(inv[i as int] == entry@);
        }
        if selector.matches(entry.version.as_str()) {
            targets.push(entry.duplicate());
        }
        i += 1;
    }
    assert(inv.take(inventory.len() as int) =~= inv);
    targets
}

/// What a selection holds: every entry of it is an entry of the inventory
/// that the selector names, and every entry of the inventory that the
/// selector names is in it.
pub proof fn lemma_selected_exactly(inventory: Seq<SdkRecord>, selector: SelectorModel)
    ensures
        forall|k: int|
            0 <= k < selected(inventory, selector).len() ==> selector.matches(
                (#[trigger] selected(inventory, selector)[k]).version,
            ) && inventory.contains(selected(inventory, selector)[k]),
        forall|i: int|
            0 <= i < inventory.len() && selector.matches((#[trigger] inventory[i]).version)
                ==> selected(inventory, selector).contains(inventory[i]),
        selected(inventory, selector).len() <= inventory.len(),
{
    let pred = |r: SdkRecord| selector.matches(r.version);
    let chosen = inventory.filter(pred);
    inventory.lemma_filter_len(pred);
    assert forall|k: int| 0 <= k < chosen.len() implies selector.matches(
        (#[trigger] chosen[k]).version,
    ) && inventory.contains(chosen[k]) by {
        inventory.lemma_filter_pred(pred, k);
        assert(chosen.contains(chosen[k]));
        inventory.lemma_filter_contains_rev(pred, chosen[k]);
    }
    assert forall|i: int|
        0 <= i < inventory.len() && selector.matches(
            (#[trigger] inventory[i]).version,
        ) implies chosen.contains(inventory[i]) by {
        assert(pred(inventory[i]));
        inventory.lemma_filter_contains(pred, i);
    }
}

/// A full version selects exactly the entries whose version is that very
/// text. A version that merely begins with it is not selected.
pub proof fn lemma_exact_selects_equal(inventory: Seq<SdkRecord>, wanted: Seq<char>)
    ensures
        forall|version: Seq<char>|
            SelectorModel::Exact(wanted).matches(version) <==> version == wanted,
        forall|version: Seq<char>|
            starts_with(version, wanted) && version.len() > wanted.len() ==> !SelectorModel::Exact(
                wanted,
            ).matches(version),
        forall|k: int|
            0 <= k < selected(inventory, SelectorModel::Exact(wanted)).len() ==> (#[trigger] selected(
                inventory,
                SelectorModel::Exact(wanted),
            )[k]).version == wanted,
        forall|i: int|
            0 <= i < inventory.len() && (#[trigger] inventory[i]).version == wanted ==> selected(
                inventory,
                SelectorModel::Exact(wanted),
            ).contains(inventory[i]),
{
    lemma_selected_exactly(inventory, SelectorModel::Exact(wanted));
}

/// A major number selects exactly the entries whose version is the number,
/// a dot, and whatever follows. The number alone is not selected, and
/// neither is a version in which anything stands before the number.
pub proof fn lemma_major_selects_prefixed(inventory: Seq<SdkRecord>, major: Seq<char>)
    ensures
        forall|version: Seq<char>|
            SelectorModel::MajorPrefix(major).matches(version) <==> (version.len() > major.len()
                && version.take(major.len() as int) == major && version[major.len() as int]
                == '.'),
        !SelectorModel::MajorPrefix(major).matches(major),
        forall|k: int|
            0 <= k < selected(inventory, SelectorModel::MajorPrefix(major)).len() ==> starts_with(
                (#[trigger] selected(inventory, SelectorModel::MajorPrefix(major))[k]).version,
                major.push('.'),
            ),
        forall|i: int|
            0 <= i < inventory.len() && starts_with(
                (#[trigger] inventory[i]).version,
                major.push('.'),
            ) ==> selected(inventory, SelectorModel::MajorPrefix(major)).contains(inventory[i]),
{
    let dotted = major.push('.');
    let n = major.len() as int;
    assert forall|version: Seq<char>|
        SelectorModel::MajorPrefix(major).matches(version) <==> (version.len() > major.len()
            && version.take(major.len() as int) == major && version[major.len() as int]
            == '.') by {
        if starts_with(version, dotted) {
            let head = version.take(n + 1);
            assert(head == dotted);
            assert(version[n] == head[n]);
            assert(version.take(n) =~= head.take(n));
            assert(dotted.take(n) =~= major);
        }
        if version.len() > n && version.take(n) == major && version[n] == '.' {
            assert(version.take(n + 1) =~= version.take(n).push(version[n]));
        }
    }
    lemma_selected_exactly(inventory, SelectorModel::MajorPrefix(major));
}

} // verus!
