//! The order in which completed targets are shown: the most actionable
//! anomalies first.
//!
//! Every completed target falls into exactly one of seven classes. The list
//! that is shown is the list of completed targets, newest first, sorted by
//! class; targets of the same class keep their relative order.

use vstd::prelude::*;
use crate::outcome::{Done, RunResult, RunResults};

verus! {

/// The class of a completed target, from the most to the least urgent.
#[derive(Clone, Copy, Debug, PartialEq, Eq, Structural)]
pub enum Priority {
    /// The reference compiler and the first variant disagree.
    ReferenceMismatch,
    /// The reference compiler and the last variant disagree (only where five
    /// variants are run).
    LastVariantMismatch,
    /// The stable variant gives different outcomes with and without the wire
    /// format.
    StableWireMismatch,
    /// The next variant gives different outcomes with and without the wire
    /// format (only where five variants are run).
    NextWireMismatch,
    /// All variants agree, and the reference compiler timed out.
    ReferenceTimedOut,
    /// All variants agree, and the reference compiler reported failure.
    ReferenceFailed,
    /// All variants agree, and the reference compiler reported success.
    Nominal,
}

/// The number of priority classes.
pub const CLASSES: u8 = 7;

impl Priority {
    /// The position of the class in the order of display; lower comes first.
    pub open spec fn spec_rank(&self) -> u8 {
        match *self {
            Priority::ReferenceMismatch => 0,
            Priority::LastVariantMismatch => 1,
            Priority::StableWireMismatch => 2,
            Priority::NextWireMismatch => 3,
            Priority::ReferenceTimedOut => 4,
            Priority::ReferenceFailed => 5,
            Priority::Nominal => 6,
        }
    }

    /// The position of the class in the order of display; lower comes first.
    #[verifier::when_used_as_spec(spec_rank)]
    pub fn rank(&self) -> (r: u8)
        ensures
            r == self.spec_rank(),
            r < CLASSES,
    {
        match self {
            Priority::ReferenceMismatch => 0,
            Priority::LastVariantMismatch => 1,
            Priority::StableWireMismatch => 2,
            Priority::NextWireMismatch => 3,
            Priority::ReferenceTimedOut => 4,
            Priority::ReferenceFailed => 5,
            Priority::Nominal => 6,
        }
    }
}

/// The class that a set of outcomes falls into: the first of the seven
/// conditions, in order of urgency, that holds of it.
pub open spec fn priority_of(results: RunResults) -> Priority {
    match results {
        RunResults::V1 { elm_result, lamdera_stable_no_wire_result, lamdera_stable_result } => {
            if elm_result != lamdera_stable_no_wire_result {
                Priority::ReferenceMismatch
            } else if lamdera_stable_no_wire_result != lamdera_stable_result {
                Priority::StableWireMismatch
            } else {
                reference_class(elm_result)
            }
        },
        RunResults::V2 {
            elm_result,
            lamdera_stable_no_wire_result,
            lamdera_stable_result,
            lamdera_next_no_wire_result,
            lamdera_next_result,
        } => {
            if elm_result != lamdera_stable_no_wire_result {
                Priority::ReferenceMismatch
            } else if elm_result != lamdera_next_result {
                Priority::LastVariantMismatch
            } else if lamdera_stable_no_wire_result != lamdera_stable_result {
                Priority::StableWireMismatch
            } else if lamdera_next_no_wire_result != lamdera_next_result {
                Priority::NextWireMismatch
            } else {
                reference_class(elm_result)
            }
        },
    }
}

/// The class of a target on which no two variants that are compared differ.
pub open spec fn reference_class(reference: RunResult) -> Priority {
    match reference {
        RunResult::TimedOut => Priority::ReferenceTimedOut,
        RunResult::Finished(false) => Priority::ReferenceFailed,
        RunResult::Finished(true) => Priority::Nominal,
    }
}

/// The rank of the class of a completed target.
pub open spec fn rank_of(done: Done) -> u8 {
    priority_of(done.results).rank()
}

/// The test "this target has rank `r`".
pub open spec fn has_rank(r: u8) -> spec_fn(Done) -> bool {
    |done: Done| rank_of(done) == r
}

/// The targets of the classes below rank `k`, class by class, each class in
/// the order of `list`.
pub open spec fn classes_below(list: Seq<Done>, k: u8) -> Seq<Done>
    decreases k,
{
    if k == 0 {
        Seq::empty()
    } else {
        classes_below(list, (k - 1) as u8) + list.filter(has_rank((k - 1) as u8))
    }
}

/// `list` sorted by priority class, targets of one class staying in the
/// order in which they stand in `list`.
pub open spec fn sorted_by_priority(list: Seq<Done>) -> Seq<Done> {
    classes_below(list, CLASSES)
}

/// What the table of completed targets shows: the newest first, then sorted
/// by priority class.
pub open spec fn display_order(dones: Seq<Done>) -> Seq<Done> {
    sorted_by_priority(dones.reverse())
}

/// Classifies a set of outcomes.
pub fn priority(results: &RunResults) -> (class: Priority)
    ensures
        class == priority_of(*results),
{
    match results {
        RunResults::V1 { elm_result, lamdera_stable_no_wire_result, lamdera_stable_result } => {
            if *elm_result != *lamdera_stable_no_wire_result {
                Priority::ReferenceMismatch
            } else if *lamdera_stable_no_wire_result != *lamdera_stable_result {
                Priority::StableWireMismatch
            } else {
                class_of_reference(*elm_result)
            }
        },
        RunResults::V2 {
            elm_result,
            lamdera_stable_no_wire_result,
            lamdera_stable_result,
            lamdera_next_no_wire_result,
            lamdera_next_result,
        } => {
            if *elm_result != *lamdera_stable_no_wire_result {
                Priority::ReferenceMismatch
            } else if *elm_result != *lamdera_next_result {
                Priority::LastVariantMismatch
            } else if *lamdera_stable_no_wire_result != *lamdera_stable_result {
                Priority::StableWireMismatch
            } else if *lamdera_next_no_wire_result != *lamdera_next_result {
                Priority::NextWireMismatch
            } else {
                class_of_reference(*elm_result)
            }
        },
    }
}

fn class_of_reference(reference: RunResult) -> (class: Priority)
    ensures
        class == reference_class(reference),
{
    match reference {
        RunResult::TimedOut => Priority::ReferenceTimedOut,
        RunResult::Finished(false) => Priority::ReferenceFailed,
        RunResult::Finished(true) => Priority::Nominal,
    }
}

/// Sorts completed targets by priority class. The sort is stable: targets of
/// the same class keep their relative order.
pub fn sort_by_priority(list: &Vec<Done>) -> (sorted: Vec<Done>)
    ensures
        sorted@ == sorted_by_priority(list@),
{
    let mut sorted: Vec<Done> = Vec::new();
    let mut k: u8 = 0;
    while k < CLASSES
        invariant
            k <= CLASSES,
            sorted@ == classes_below(list@, k),
        decreases CLASSES - k,
    {
        let ghost before = sorted@;
        let mut i: usize = 0;
        while i < list.len()
            invariant
                i <= list.len(),
                k < CLASSES,
                before == classes_below(list@, k),
                sorted@ == before + list@.take(i as int).filter(has_rank(k)),
            decreases list.len() - i,
        {
            let class = priority(&list[i].results);
            proof {
                reveal(Seq::filter);
                assert(list@.take(i + 1).drop_last() =~= list@.take(i as int));
                assert(list@.take(i + 1).last() == list@[i as int]);
            }
            if class.rank() == k {
                sorted.push(list[i].clone());
                assert(sorted@ =~= before + list@.take(i + 1).filter(has_rank(k)));
            }
            i = i + 1;
        }
        assert(list@.take(list@.len() as int) =~= list@);
        k = k + 1;
    }
    sorted
}

/// The completed targets in the order in which they are shown: the newest
/// first, then sorted by priority class. `dones` itself is not changed.
pub fn done_list(dones: &Vec<Done>) -> (shown: Vec<Done>)
    ensures
        shown@ == display_order(dones@),
{
    let mut reversed: Vec<Done> = Vec::new();
    let mut i: usize = dones.len();
    while i > 0
        invariant
            i <= dones.len(),
            reversed@.len() == dones.len() - i,
            forall|j: int|
                0 <= j < reversed@.len() ==> reversed@[j] == dones@[dones@.len() - 1 - j],
        decreases i,
    {
        i = i - 1;
        reversed.push(dones[i].clone());
    }
    assert(reversed@ =~= dones@.reverse());
    sort_by_priority(&reversed)
}

proof fn lemma_filter_keeps_all(s: Seq<Done>, pred: spec_fn(Done) -> bool)
    requires
        forall|i: int| 0 <= i < s.len() ==> pred(#[trigger] s[i]),
    ensures
        s.filter(pred) == s,
    decreases s.len(),
{
    reveal(Seq::filter);
    if s.len() > 0 {
        lemma_filter_keeps_all(s.drop_last(), pred);
        assert(s.drop_last().push(s.last()) =~= s);
    }
}

proof fn lemma_filter_keeps_none(s: Seq<Done>, pred: spec_fn(Done) -> bool)
    requires
        forall|i: int| 0 <= i < s.len() ==> !pred(#[trigger] s[i]),
    ensures
        s.filter(pred) == Seq::<Done>::empty(),
    decreases s.len(),
{
    reveal(Seq::filter);
    if s.len() > 0 {
        lemma_filter_keeps_none(s.drop_last(), pred);
    }
}

/// Picking one class out of the first `k` classes of a list gives that class
/// of the list, or nothing if the class is not among the first `k`.
proof fn lemma_class_of_classes_below(list: Seq<Done>, k: u8, r: u8)
    ensures
        classes_below(list, k).filter(has_rank(r)) == if r < k {
            list.filter(has_rank(r))
        } else {
            Seq::<Done>::empty()
        },
    decreases k,
{
    if k == 0 {
        lemma_filter_keeps_none(classes_below(list, k), has_rank(r));
    } else {
        let j = (k - 1) as u8;
        let lower = classes_below(list, j);
        let class = list.filter(has_rank(j));
        lemma_class_of_classes_below(list, j, r);
        Seq::filter_distributes_over_add(lower, class, has_rank(r));
        assert forall|i: int| 0 <= i < class.len() implies rank_of(#[trigger] class[i]) == j by {
            list.lemma_filter_pred(has_rank(j), i);
        }
        if r == j {
            lemma_filter_keeps_all(class, has_rank(r));
            assert(Seq::<Done>::empty() + class =~= class);
        } else {
            lemma_filter_keeps_none(class, has_rank(r));
            assert(lower.filter(has_rank(r)) + Seq::<Done>::empty() =~= lower.filter(has_rank(r)));
        }
    }
}

proof fn lemma_classes_below_agree(a: Seq<Done>, b: Seq<Done>, k: u8)
    requires
        forall|r: u8| r < k ==> a.filter(has_rank(r)) == b.filter(has_rank(r)),
    ensures
        classes_below(a, k) == classes_below(b, k),
    decreases k,
{
    if k > 0 {
        lemma_classes_below_agree(a, b, (k - 1) as u8);
    }
}

/// Every target in the first `k` classes has a rank below `k`, and the
/// ranks never go down along the list.
proof fn lemma_classes_below_ordered(list: Seq<Done>, k: u8)
    ensures
        forall|i: int|
            0 <= i < classes_below(list, k).len() ==> rank_of(#[trigger] classes_below(list, k)[i])
                < k,
        forall|i: int, j: int|
            0 <= i <= j < classes_below(list, k).len() ==> rank_of(classes_below(list, k)[i])
                <= rank_of(classes_below(list, k)[j]),
    decreases k,
{
    if k > 0 {
        let r = (k - 1) as u8;
        let lower = classes_below(list, r);
        let class = list.filter(has_rank(r));
        lemma_classes_below_ordered(list, r);
        assert forall|i: int| 0 <= i < class.len() implies rank_of(#[trigger] class[i]) == r by {
            list.lemma_filter_pred(has_rank(r), i);
        }
        let all = classes_below(list, k);
        assert(all == lower + class);
        assert forall|i: int| 0 <= i < all.len() implies rank_of(#[trigger] all[i]) < k by {
            if i < lower.len() {
                assert(all[i] == lower[i]);
            } else {
                assert(all[i] == class[i - lower.len()]);
            }
        }
        assert forall|i: int, j: int| 0 <= i <= j < all.len() implies rank_of(all[i]) <= rank_of(
            all[j],
        ) by {
            if j < lower.len() {
                assert(all[i] == lower[i] && all[j] == lower[j]);
            } else if i < lower.len() {
                assert(all[i] == lower[i]);
                assert(all[j] == class[j - lower.len()]);
            } else {
                assert(all[i] == class[i - lower.len()]);
                assert(all[j] == class[j - lower.len()]);
            }
        }
    }
}

proof fn lemma_classes_below_push(list: Seq<Done>, done: Done, k: u8)
    ensures
        classes_below(list.push(done), k).to_multiset() == if rank_of(done) < k {
            classes_below(list, k).to_multiset().insert(done)
        } else {
            classes_below(list, k).to_multiset()
        },
    decreases k,
{
    broadcast use vstd::multiset::group_multiset_axioms;

    if k > 0 {
        let r = (k - 1) as u8;
        lemma_classes_below_push(list, done, r);
        let grown = list.push(done);
        vstd::seq_lib::lemma_multiset_commutative(
            classes_below(grown, r),
            grown.filter(has_rank(r)),
        );
        vstd::seq_lib::lemma_multiset_commutative(
            classes_below(list, r),
            list.filter(has_rank(r)),
        );
        assert(grown.drop_last() =~= list);
        assert(grown.last() == done);
        assert(grown.filter(has_rank(r)) == if rank_of(done) == r {
            list.filter(has_rank(r)).push(done)
        } else {
            list.filter(has_rank(r))
        }) by {
            reveal(Seq::filter);
        }
        list.filter(has_rank(r)).to_multiset_ensures();
        assert(classes_below(grown, k).to_multiset() =~= if rank_of(done) < k {
            classes_below(list, k).to_multiset().insert(done)
        } else {
            classes_below(list, k).to_multiset()
        });
    }
}

/// The classes are totally ordered by their ranks, so that any two targets
/// can be compared: the comparison is reflexive, transitive and total.
/// Targets of the same class compare as equal.
pub proof fn lemma_ranks_are_a_total_preorder(a: Done, b: Done, c: Done)
    ensures
        rank_of(a) < CLASSES,
        rank_of(a) <= rank_of(a),
        rank_of(a) <= rank_of(b) || rank_of(b) <= rank_of(a),
        rank_of(a) <= rank_of(b) && rank_of(b) <= rank_of(c) ==> rank_of(a) <= rank_of(c),
        a.results == b.results ==> rank_of(a) == rank_of(b),
{
}

/// A sorted list is in order: the priority ranks never go down along it.
pub proof fn lemma_sorted_is_ordered(list: Seq<Done>)
    ensures
        forall|i: int, j: int|
            0 <= i <= j < sorted_by_priority(list).len() ==> rank_of(sorted_by_priority(list)[i])
                <= rank_of(sorted_by_priority(list)[j]),
{
    lemma_classes_below_ordered(list, CLASSES);
}

/// Sorting neither drops nor duplicates a target: the sorted list holds
/// every target exactly as often as the list it was made from.
pub proof fn lemma_sorted_is_permutation(list: Seq<Done>)
    ensures
        sorted_by_priority(list).to_multiset() == list.to_multiset(),
        sorted_by_priority(list).len() == list.len(),
    decreases list.len(),
{
    broadcast use vstd::multiset::group_multiset_axioms;

    if list.len() == 0 {
        lemma_empty_has_no_classes(list, CLASSES);
        assert(list =~= Seq::<Done>::empty());
    } else {
        let front = list.drop_last();
        let done = list.last();
        assert(front.push(done) =~= list);
        lemma_sorted_is_permutation(front);
        lemma_classes_below_push(front, done, CLASSES);
        front.to_multiset_ensures();
    }
    sorted_by_priority(list).to_multiset_ensures();
    list.to_multiset_ensures();
}

proof fn lemma_empty_has_no_classes(list: Seq<Done>, k: u8)
    requires
        list.len() == 0,
    ensures
        classes_below(list, k) == Seq::<Done>::empty(),
    decreases k,
{
    if k > 0 {
        let r = (k - 1) as u8;
        lemma_empty_has_no_classes(list, r);
        lemma_filter_keeps_none(list, has_rank(r));
        assert(Seq::<Done>::empty() + Seq::<Done>::empty() =~= Seq::<Done>::empty());
    }
}

/// Sorting a list that is already sorted changes nothing.
pub proof fn lemma_sort_is_idempotent(list: Seq<Done>)
    ensures
        sorted_by_priority(sorted_by_priority(list)) == sorted_by_priority(list),
{
    let sorted = sorted_by_priority(list);
    assert forall|r: u8| r < CLASSES implies sorted.filter(has_rank(r)) == list.filter(
        has_rank(r),
    ) by {
        lemma_class_of_classes_below(list, CLASSES, r);
    }
    lemma_classes_below_agree(sorted, list, CLASSES);
}

/// Sorting is stable: within one class, the sorted list holds the targets
/// in the order in which the unsorted list holds them.
pub proof fn lemma_sort_is_stable(list: Seq<Done>, r: u8)
    requires
        r < CLASSES,
    ensures
        sorted_by_priority(list).filter(has_rank(r)) == list.filter(has_rank(r)),
{
    lemma_class_of_classes_below(list, CLASSES, r);
}

} // verus!
