//! Safe removal: which directories a request may delete, and what to do
//! with each of them.
//!
//! The trusted roots are the parents of the install paths of the whole
//! inventory. A target is deleted only if its path lies within one of them.
//! The library decides; the caller looks at the disk and deletes.

use crate::inventory::{InstalledSdk, SdkRecord};
use crate::paths::{is_same_path, is_within, parent_of, parent_path, path_within, same_path};
use crate::selector::{select_targets, selected, SelectorModel, VersionSelector};
use crate::text::texts;
use vstd::prelude::*;

verus! {

/// Whether `roots` already holds the path `p`, in some spelling.
pub open spec fn known_root(roots: Seq<Seq<char>>, p: Seq<char>) -> bool {
    exists|j: int| 0 <= j < roots.len() && same_path(#[trigger] roots[j], p)
}

/// The installation roots of an inventory: the parent of each install path,
/// each path once, in the order in which the inventory first shows it.
pub open spec fn roots_of(inventory: Seq<SdkRecord>) -> Seq<Seq<char>>
    decreases inventory.len(),
{
    if inventory.len() == 0 {
        Seq::empty()
    } else {
        let earlier = roots_of(inventory.drop_last());
        match parent_path(inventory.last().install_path) {
            Some(p) => if known_root(earlier, p) {
                earlier
            } else {
                earlier.push(p)
            },
            None => earlier,
        }
    }
}

/// Whether `path` is one of `roots` or lies below one of them.
pub open spec fn within_roots(path: Seq<char>, roots: Seq<Seq<char>>) -> bool {
    exists|j: int| 0 <= j < roots.len() && path_within(path, #[trigger] roots[j])
}

/// The roots of an inventory are the parents of its install paths, each
/// path once: every root is the parent of some entry's install path; the
/// parent of every entry's install path is among the roots, in its own
/// spelling or in another of the same path; and no two roots are the same
/// path. The roots depend on the inventory alone.
pub proof fn lemma_roots_are_parents(inventory: Seq<SdkRecord>)
    ensures
        forall|j: int|
            0 <= j < roots_of(inventory).len() ==> exists|i: int|
                0 <= i < inventory.len() && parent_path((#[trigger] inventory[i]).install_path)
                    == Some(#[trigger] roots_of(inventory)[j]),
        forall|i: int|
            0 <= i < inventory.len() ==> (parent_path(
                (#[trigger] inventory[i]).install_path,
            ) matches Some(p) ==> roots_of(inventory).contains(p) || known_root(
                roots_of(inventory),
                p,
            )),
        forall|j: int, k: int|
            0 <= j < k < roots_of(inventory).len() ==> !same_path(
                #[trigger] roots_of(inventory)[j],
                #[trigger] roots_of(inventory)[k],
            ),
    decreases inventory.len(),
{
    if inventory.len() > 0 {
        let shorter = inventory.drop_last();
        let earlier = roots_of(shorter);
        let roots = roots_of(inventory);
        lemma_roots_are_parents(shorter);
        assert(forall|j: int| 0 <= j < earlier.len() ==> roots[j] == earlier[j]);
        assert forall|j: int| 0 <= j < roots.len() implies exists|i: int|
            0 <= i < inventory.len() && parent_path((#[trigger] inventory[i]).install_path)
                == Some(#[trigger] roots[j]) by {
            if j < earlier.len() {
                let i = choose|i: int|
                    0 <= i < shorter.len() && parent_path((#[trigger] shorter[i]).install_path)
                        == Some(earlier[j]);
                assert(inventory[i] == shorter[i]);
            } else {
                assert(parent_path(inventory[inventory.len() - 1].install_path) == Some(roots[j]));
            }
        }
        assert forall|i: int| 0 <= i < inventory.len() implies (parent_path(
            (#[trigger] inventory[i]).install_path,
        ) matches Some(p) ==> roots.contains(p) || known_root(roots, p)) by {
            match parent_path(inventory[i].install_path) {
                Some(p) => {
                    if i < shorter.len() {
                        assert(inventory[i] == shorter[i]);
                        if earlier.contains(p) {
                            let j = choose|j: int| 0 <= j < earlier.len() && earlier[j] == p;
                            assert(roots[j] == p);
                        } else {
                            let j = choose|j: int|
                                0 <= j < earlier.len() && same_path(#[trigger] earlier[j], p);
                            assert(same_path(roots[j], p));
                        }
                    } else if known_root(earlier, p) {
                        let j = choose|j: int|
                            0 <= j < earlier.len() && same_path(#[trigger] earlier[j], p);
                        assert(same_path(roots[j], p));
                    } else {
                        assert(roots[roots.len() - 1] == p);
                    }
                },
                None => {},
            }
        }
    }
}

/// A target whose install path lies outside every root of the inventory is
/// never deleted, whatever the selector and whatever was seen of it: its
/// removal ends at once as skipped.
pub proof fn lemma_outside_roots_never_deleted(
    targets: Seq<RemovalTarget>,
    inventory: Seq<SdkRecord>,
    selector: SelectorModel,
    k: int,
    seen: Observation,
)
    requires
        targets_of(targets, inventory, selector),
        0 <= k < targets.len(),
        !within_roots(targets[k].record().install_path, roots_of(inventory)),
    ensures
        step_for(targets[k].permitted(), seen) == Step::Finish(RemovalOutcome::SkippedUnsafe),
        !(step_for(targets[k].permitted(), seen) is Delete),
{
}

/// A target whose directory is already absent is not deleted and is no
/// failure: its removal ends as not found, or as skipped where it was not
/// permitted. Removing what was removed before therefore changes nothing.
pub proof fn lemma_absent_target_is_left_alone(permitted: bool)
    ensures
        step_for(permitted, Observation::Absent) == Step::Finish(
            if permitted {
                RemovalOutcome::NotFound
            } else {
                RemovalOutcome::SkippedUnsafe
            },
        ),
        !(step_for(permitted, Observation::Absent) is Delete),
{
}

/// A directory is deleted only after it was seen to be there, and only for
/// a permitted target.
pub proof fn lemma_delete_only_when_present(permitted: bool, seen: Observation)
    ensures
        step_for(permitted, seen) is Delete <==> permitted && seen is Present,
{
}

/// Decides whether `roots` already holds the path `p`.
fn is_known_root(roots: &Vec<String>, p: &str) -> (r: bool)
    ensures
        r == known_root(texts(roots@), p@),
{
    let mut j: usize = 0;
    while j < roots.len()
        invariant
            j <= roots.len(),
            forall|k: int| 0 <= k < j ==> !same_path(#[trigger] texts(roots@)[k], p@),
        decreases roots.len() - j,
    {
        if is_same_path(roots[j].as_str(), p) {
            assert(same_path(texts(roots@)[j as int], p@));
            return true;
        }
        j += 1;
    }
    false
}

/// Computes the installation roots of an inventory.
pub fn installation_roots(inventory: &Vec<InstalledSdk>) -> (roots: Vec<String>)
    ensures
        texts(roots@) == roots_of(inventory.deep_view()),
{
    let ghost inv = inventory.deep_view();
    let mut roots: Vec<String> = Vec::new();
    let mut i: usize = 0;
    assert(texts(roots@) =~= roots_of(inv.take(0)));
    while i < inventory.len()
        invariant
            i <= inventory.len(),
            inv == inventory.deep_view(),
            texts(roots@) == roots_of(inv.take(i as int)),
        decreases inventory.len() - i,
    {
        proof {
            assert(inv.take(i + 1).drop_last() =~= inv.take(i as int));
            assert(inv.take(i + 1).last() == inventory[i as int]@);
        }
        match parent_of(inventory[i].install_path.as_str()) {
            Some(p) => {
                if !is_known_root(&roots, p.as_str()) {
                    assert(texts(roots@.push(p)) =~= texts(roots@).push(p@));
                    roots.push(p);
                }
            },
            None => {},
        }
        i += 1;
    }
    assert(inv.take(inventory.len() as int) =~= inv);
    roots
}

/// Decides whether `path` is one of `roots` or lies below one of them.
pub fn is_within_roots(path: &str, roots: &Vec<String>) -> (r: bool)
    ensures
        r == within_roots(path@, texts(roots@)),
{
    let mut j: usize = 0;
    while j < roots.len()
        invariant
            j <= roots.len(),
            forall|k: int| 0 <= k < j ==> !path_within(path@, #[trigger] texts(roots@)[k]),
        decreases roots.len() - j,
    {
        if is_within(path, roots[j].as_str()) {
            assert(path_within(path@, texts(roots@)[j as int]));
            return true;
        }
        j += 1;
    }
    false
}

/// What the caller has seen of a target's directory so far.
#[derive(Debug, PartialEq, Eq)]
pub enum Observation {
    /// Nothing yet.
    Nothing,
    /// The directory does not exist.
    Absent,
    /// The directory exists.
    Present,
    /// The directory tree was deleted.
    Deleted,
    /// Deleting the directory tree failed, for the given cause.
    DeleteFailed(String),
}

/// How the removal of one target ended.
#[derive(Debug, PartialEq, Eq)]
pub enum RemovalOutcome {
    /// The path lies outside every root: nothing was touched.
    SkippedUnsafe,
    /// The directory was already absent: nothing was deleted.
    NotFound,
    /// The directory tree was deleted.
    Removed,
    /// Deleting failed, for the given cause.
    Failed(String),
}

/// What to do next with one target.
#[derive(Debug, PartialEq, Eq)]
pub enum Step {
    /// Look whether the directory exists.
    Probe,
    /// Delete the directory tree.
    Delete,
    /// Nothing more: the target ended this way.
    Finish(RemovalOutcome),
}

/// The step that follows from whether the target is permitted and from what
/// was seen. A target that is not permitted is finished at once, whatever
/// was seen; a permitted one is probed, then deleted only if present.
pub open spec fn step_for(permitted: bool, seen: Observation) -> Step {
    if !permitted {
        Step::Finish(RemovalOutcome::SkippedUnsafe)
    } else {
        match seen {
            Observation::Nothing => Step::Probe,
            Observation::Absent => Step::Finish(RemovalOutcome::NotFound),
            Observation::Present => Step::Delete,
            Observation::Deleted => Step::Finish(RemovalOutcome::Removed),
            Observation::DeleteFailed(cause) => Step::Finish(RemovalOutcome::Failed(cause)),
        }
    }
}

/// One SDK that a request names, with the verdict of the containment check.
/// Only [`plan_removal`] makes one, so the verdict cannot be set from outside.
#[derive(Debug)]
pub struct RemovalTarget {
    sdk: InstalledSdk,
    permitted: bool,
}

impl RemovalTarget {
    /// The SDK to remove.
    pub closed spec fn record(&self) -> SdkRecord {
        self.sdk@
    }

    /// Whether the install path lies within the roots of the inventory that
    /// the plan was made from.
    pub closed spec fn permitted(&self) -> bool {
        self.permitted
    }

    /// The SDK to remove.
    pub fn sdk(&self) -> (r: &InstalledSdk)
        ensures
            r@ == self.record(),
    {
        &self.sdk
    }

    /// Whether the target may be deleted.
    pub fn is_permitted(&self) -> (r: bool)
        ensures
            r == self.permitted(),
    {
        self.permitted
    }

    /// Decides what to do next with this target, given what was seen so far.
    pub fn next_step(&self, seen: &Observation) -> (s: Step)
        ensures
            s == step_for(self.permitted(), *seen),
            s is Delete ==> self.permitted() && *seen is Present,
    {
        if !self.permitted {
            Step::Finish(RemovalOutcome::SkippedUnsafe)
        } else {
            match seen {
                Observation::Nothing => Step::Probe,
                Observation::Absent => Step::Finish(RemovalOutcome::NotFound),
                Observation::Present => Step::Delete,
                Observation::Deleted => Step::Finish(RemovalOutcome::Removed),
                Observation::DeleteFailed(cause) => Step::Finish(
                    RemovalOutcome::Failed(cause.clone()),
                ),
            }
        }
    }
}

/// What a removal request comes to.
#[derive(Debug)]
pub enum RemovalPlan {
    /// Neither a version nor `all` was given: nothing to do.
    NothingRequested,
    /// The selector names no installed SDK: nothing to do.
    NoMatch,
    /// The SDKs to remove, in inventory order.
    Remove(Vec<RemovalTarget>),
}

/// Whether `targets` are the entries of `inventory` that `selector` names,
/// in order, each with the verdict of the containment check against the
/// roots of the whole inventory.
pub open spec fn targets_of(
    targets: Seq<RemovalTarget>,
    inventory: Seq<SdkRecord>,
    selector: SelectorModel,
) -> bool {
    let chosen = selected(inventory, selector);
    &&& targets.len() == chosen.len()
    &&& forall|k: int|
        0 <= k < targets.len() ==> {
            &&& (#[trigger] targets[k]).record() == chosen[k]
            &&& targets[k].permitted() == within_roots(
                chosen[k].install_path,
                roots_of(inventory),
            )
        }
}

/// Plans a removal: computes the roots from the whole inventory, then picks
/// the targets and checks each against the roots.
pub fn plan_removal(inventory: &Vec<InstalledSdk>, selector: Option<&VersionSelector>) -> (plan:
    RemovalPlan)
    ensures
        match selector {
            None => plan is NothingRequested,
            Some(s) => match plan {
                RemovalPlan::NothingRequested => false,
                RemovalPlan::NoMatch => selected(inventory.deep_view(), s@).len() == 0,
                RemovalPlan::Remove(targets) => {
                    &&& targets.len() > 0
                    &&& targets_of(targets@, inventory.deep_view(), s@)
                },
            },
        },
{
    let roots = installation_roots(inventory);
    match selector {
        None => RemovalPlan::NothingRequested,
        Some(s) => {
            let chosen = select_targets(inventory, s);
            if chosen.len() == 0 {
                return RemovalPlan::NoMatch;
            }
            let ghost all = chosen.deep_view();
            let mut targets: Vec<RemovalTarget> = Vec::new();
            let mut k: usize = 0;
            while k < chosen.len()
                invariant
                    k <= chosen.len(),
                    targets.len() == k,
                    chosen.deep_view() == all,
                    all == selected(inventory.deep_view(), s@),
                    texts(roots@) == roots_of(inventory.deep_view()),
                    forall|j: int|
                        0 <= j < k ==> {
                            &&& (#[trigger] targets[j]).record() == all[j]
                            &&& targets[j].permitted() == within_roots(
                                all[j].install_path,
                                roots_of(inventory.deep_view()),
                            )
                        },
                decreases chosen.len() - k,
            {
                let sdk = chosen[k].duplicate();
                let permitted = is_within_roots(sdk.install_path.as_str(), &roots);
                assert(sdk@ == all[k as int]);
                targets.push(RemovalTarget { sdk, permitted });
                k += 1;
            }
            RemovalPlan::Remove(targets)
        },
    }
}

} // verus!
