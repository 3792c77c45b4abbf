//! Batch statuses: which leaders are asked, and how their answers merge.

use crate::relayer::batches::BatchRecord;
use crate::text::copy_texts;
use vstd::hash_set::StringHashSet;
use vstd::prelude::*;

verus! {

/// What a leader reports of a batch.
#[derive(Debug, Clone, PartialEq, Eq)]
pub enum BatchStatus {
    /// The batch is waiting.
    Accepted { digests: Vec<String> },
    /// Every transaction was included.
    Finalized { height: u64, included: Vec<String> },
    /// Some transactions were included and some filtered.
    PartiallyFinalized { height: u64, included: Vec<String>, filtered: Vec<String> },
    /// No transaction was included.
    Dropped { filtered: Vec<String> },
}

/// What a [`BatchStatus`] says.
pub enum StatusView {
    Accepted { digests: Seq<Seq<char>> },
    Finalized { height: u64, included: Seq<Seq<char>> },
    PartiallyFinalized { height: u64, included: Seq<Seq<char>>, filtered: Seq<Seq<char>> },
    Dropped { filtered: Seq<Seq<char>> },
}

impl View for BatchStatus {
    type V = StatusView;

    open spec fn view(&self) -> StatusView {
        match *self {
            BatchStatus::Accepted { digests } => StatusView::Accepted {
                digests: crate::text::texts(digests@),
            },
            BatchStatus::Finalized { height, included } => StatusView::Finalized {
                height,
                included: crate::text::texts(included@),
            },
            BatchStatus::PartiallyFinalized { height, included, filtered } =>
                StatusView::PartiallyFinalized {
                    height,
                    included: crate::text::texts(included@),
                    filtered: crate::text::texts(filtered@),
                },
            BatchStatus::Dropped { filtered } => StatusView::Dropped {
                filtered: crate::text::texts(filtered@),
            },
        }
    }
}

impl BatchStatus {
    /// Returns a copy of the status.
    pub fn copy(&self) -> (copied: BatchStatus)
        ensures
            copied@ == self@,
    {
        match self {
            BatchStatus::Accepted { digests } => BatchStatus::Accepted {
                digests: copy_texts(digests),
            },
            BatchStatus::Finalized { height, included } => BatchStatus::Finalized {
                height: *height,
                included: copy_texts(included),
            },
            BatchStatus::PartiallyFinalized { height, included, filtered } =>
                BatchStatus::PartiallyFinalized {
                    height: *height,
                    included: copy_texts(included),
                    filtered: copy_texts(filtered),
                },
            BatchStatus::Dropped { filtered } => BatchStatus::Dropped {
                filtered: copy_texts(filtered),
            },
        }
    }
}

/// What a list of statuses says.
pub open spec fn status_views(statuses: Seq<BatchStatus>) -> Seq<StatusView> {
    Seq::new(statuses.len(), |i: int| statuses[i]@)
}

/// `ordered` followed by the values that it does not hold yet, each once.
pub open spec fn joined_unique(ordered: Seq<Seq<char>>, values: Seq<Seq<char>>) -> Seq<Seq<char>>
    decreases values.len(),
{
    if values.len() == 0 {
        ordered
    } else {
        let front = joined_unique(ordered, values.drop_last());
        if front.contains(values.last()) {
            front
        } else {
            front.push(values.last())
        }
    }
}

/// Joining keeps what was there in front, adds every value, adds nothing else, and repeats nothing.
pub proof fn joining_is_union(ordered: Seq<Seq<char>>, values: Seq<Seq<char>>)
    ensures
        ordered.is_prefix_of(joined_unique(ordered, values)),
        ordered.no_duplicates() ==> joined_unique(ordered, values).no_duplicates(),
        forall|value: Seq<char>| #[trigger]
            joined_unique(ordered, values).contains(value) <==> ordered.contains(value)
                || values.contains(value),
    decreases values.len(),
{
    if values.len() > 0 {
        let front = joined_unique(ordered, values.drop_last());
        joining_is_union(ordered, values.drop_last());
        let all = joined_unique(ordered, values);
        assert(values =~= values.drop_last().push(values.last()));
        assert forall|value: Seq<char>| #[trigger] all.contains(value) <==> ordered.contains(value)
            || values.contains(value) by {
            broadcast use vstd::seq_lib::group_seq_properties;

        }
    }
}

/// Appends the values that are not known yet, each once.
pub fn push_unique(values: &Vec<String>, ordered: &mut Vec<String>, known: &mut StringHashSet)
    requires
        old(known)@ == crate::text::texts(old(ordered)@).to_set(),
    ensures
        crate::text::texts(final(ordered)@) == joined_unique(
            crate::text::texts(old(ordered)@),
            crate::text::texts(values@),
        ),
        final(known)@ == crate::text::texts(final(ordered)@).to_set(),
{
    let ghost start = crate::text::texts(ordered@);
    let ghost all = crate::text::texts(values@);
    let mut i: usize = 0;
    proof {
        assert(all.take(0) =~= Seq::<Seq<char>>::empty());
    }
    while i < values.len()
        invariant
            i <= values.len(),
            all == crate::text::texts(values@),
            crate::text::texts(ordered@) == joined_unique(start, all.take(i as int)),
            known@ == crate::text::texts(ordered@).to_set(),
        decreases values.len() - i,
    {
        let ghost front = crate::text::texts(ordered@);
        proof {
            assert(all.take(i + 1).drop_last() =~= all.take(i as int));
            assert(all.take(i + 1).last() == values@[i as int]@);
        }
        if known.insert(values[i].clone()) {
            ordered.push(values[i].clone());
            proof {
                assert(crate::text::texts(ordered@) =~= front.push(values@[i as int]@));
                front.lemma_push_to_set_commute(values@[i as int]@);
            }
        } else {
            proof {
                assert(known@ =~= front.to_set());
            }
        }
        i += 1;
    }
    proof {
        assert(all.take(i as int) =~= all);
    }
}

/// The leaders asked for a batch's status: those it was sent to, then any other that acknowledged
/// it.
pub open spec fn status_order(record: BatchRecord) -> Seq<Seq<char>> {
    joined_unique(
        joined_unique(Seq::empty(), crate::text::texts(record.targeted_leaders@)),
        crate::text::texts(record.acknowledged_leaders@),
    )
}

/// Returns the leaders asked for a batch's status.
pub fn status_leaders(record: &BatchRecord) -> (leaders: Vec<String>)
    ensures
        crate::text::texts(leaders@) == status_order(*record),
{
    let mut leaders: Vec<String> = Vec::new();
    let mut seen = StringHashSet::new();
    proof {
        assert(crate::text::texts(leaders@) =~= Seq::<Seq<char>>::empty());
        assert(crate::text::texts(leaders@).to_set() =~= Set::<Seq<char>>::empty());
    }
    push_unique(&record.targeted_leaders, &mut leaders, &mut seen);
    push_unique(&record.acknowledged_leaders, &mut leaders, &mut seen);
    leaders
}

/// Every leader that may know of a batch is asked, and none twice.
pub proof fn status_order_covers_leaders(record: BatchRecord)
    ensures
        status_order(record).no_duplicates(),
        forall|leader: Seq<char>| #[trigger]
            status_order(record).contains(leader) <==> crate::text::texts(
                record.targeted_leaders@,
            ).contains(leader) || crate::text::texts(record.acknowledged_leaders@).contains(leader),
{
    let targeted = crate::text::texts(record.targeted_leaders@);
    let first = joined_unique(Seq::empty(), targeted);
    joining_is_union(Seq::empty(), targeted);
    joining_is_union(first, crate::text::texts(record.acknowledged_leaders@));
}

/// The digests that statuses report as included, in order and each once.
pub open spec fn all_included(statuses: Seq<StatusView>) -> Seq<Seq<char>>
    decreases statuses.len(),
{
    if statuses.len() == 0 {
        Seq::empty()
    } else {
        let front = all_included(statuses.drop_last());
        match statuses.last() {
            StatusView::PartiallyFinalized { included, .. } => joined_unique(front, included),
            _ => front,
        }
    }
}

/// The digests that statuses report as filtered, in order and each once.
pub open spec fn all_filtered(statuses: Seq<StatusView>) -> Seq<Seq<char>>
    decreases statuses.len(),
{
    if statuses.len() == 0 {
        Seq::empty()
    } else {
        let front = all_filtered(statuses.drop_last());
        match statuses.last() {
            StatusView::PartiallyFinalized { filtered, .. } => joined_unique(front, filtered),
            StatusView::Dropped { filtered } => joined_unique(front, filtered),
            _ => front,
        }
    }
}

/// The largest height that partial statuses report.
pub open spec fn top_height(statuses: Seq<StatusView>) -> u64
    decreases statuses.len(),
{
    if statuses.len() == 0 {
        0
    } else {
        let front = top_height(statuses.drop_last());
        match statuses.last() {
            StatusView::PartiallyFinalized { height, .. } => if height > front {
                height
            } else {
                front
            },
            _ => front,
        }
    }
}

/// The position of the first finalized status.
pub open spec fn first_finalized(statuses: Seq<StatusView>) -> Option<int>
    decreases statuses.len(),
{
    if statuses.len() == 0 {
        None
    } else {
        match first_finalized(statuses.drop_last()) {
            Some(at) => Some(at),
            None => if statuses.last() is Finalized {
                Some(statuses.len() - 1)
            } else {
                None
            },
        }
    }
}

/// The items of a list that are in no other.
pub open spec fn without(items: Seq<Seq<char>>, others: Seq<Seq<char>>) -> Seq<Seq<char>>
    decreases items.len(),
{
    if items.len() == 0 {
        Seq::empty()
    } else {
        let front = without(items.drop_last(), others);
        if others.contains(items.last()) {
            front
        } else {
            front.push(items.last())
        }
    }
}

/// The outcome that several leaders' reports amount to: the first full finalization, else
/// everything included anywhere against everything filtered everywhere.
pub open spec fn merged(statuses: Seq<StatusView>) -> Option<StatusView> {
    match first_finalized(statuses) {
        Some(at) => Some(statuses[at]),
        None => {
            let included = all_included(statuses);
            let filtered = without(all_filtered(statuses), included);
            if included.len() == 0 && all_filtered(statuses).len() == 0 {
                None
            } else if included.len() == 0 {
                Some(StatusView::Dropped { filtered })
            } else if filtered.len() == 0 {
                Some(StatusView::Finalized { height: top_height(statuses), included })
            } else {
                Some(
                    StatusView::PartiallyFinalized {
                        height: top_height(statuses),
                        included,
                        filtered,
                    },
                )
            }
        },
    }
}

fn keep_unknown(items: Vec<String>, known: &StringHashSet, others: Ghost<Seq<Seq<char>>>) -> (kept:
    Vec<String>)
    requires
        known@ == others@.to_set(),
    ensures
        crate::text::texts(kept@) == without(crate::text::texts(items@), others@),
{
    let mut kept: Vec<String> = Vec::new();
    let ghost all = crate::text::texts(items@);
    let mut i: usize = 0;
    proof {
        assert(all.take(0) =~= Seq::<Seq<char>>::empty());
        assert(crate::text::texts(kept@) =~= Seq::<Seq<char>>::empty());
    }
    while i < items.len()
        invariant
            i <= items.len(),
            all == crate::text::texts(items@),
            known@ == others@.to_set(),
            crate::text::texts(kept@) == without(all.take(i as int), others@),
        decreases items.len() - i,
    {
        let ghost before = crate::text::texts(kept@);
        proof {
            assert(all.take(i + 1).drop_last() =~= all.take(i as int));
            assert(all.take(i + 1).last() == items@[i as int]@);
            assert(known@.contains(items@[i as int]@) <==> others@.contains(items@[i as int]@));
        }
        if !known.contains(items[i].as_str()) {
            kept.push(items[i].clone());
            proof {
                assert(crate::text::texts(kept@) =~= before.push(items@[i as int]@));
            }
        }
        i += 1;
    }
    proof {
        assert(all.take(i as int) =~= all);
    }
    kept
}

proof fn first_finalized_is_kept(statuses: Seq<StatusView>, count: int)
    requires
        0 <= count <= statuses.len(),
        first_finalized(statuses.take(count)) is Some,
    ensures
        first_finalized(statuses) == first_finalized(statuses.take(count)),
    decreases statuses.len() - count,
{
    if count == statuses.len() {
        assert(statuses.take(count) =~= statuses);
    } else {
        assert(statuses.take(count + 1).drop_last() =~= statuses.take(count));
        first_finalized_is_kept(statuses, count + 1);
    }
}

/// Merges the terminal statuses of several leaders.
pub fn merge_terminal_statuses(statuses: &Vec<BatchStatus>) -> (status: Option<BatchStatus>)
    ensures
        match status {
            Some(status) => merged(status_views(statuses@)) == Some(status@),
            None => merged(status_views(statuses@)) is None,
        },
{
    let ghost all = status_views(statuses@);
    let mut height: u64 = 0;
    let mut included: Vec<String> = Vec::new();
    let mut included_set = StringHashSet::new();
    let mut filtered: Vec<String> = Vec::new();
    let mut filtered_set = StringHashSet::new();
    proof {
        assert(all.take(0) =~= Seq::<StatusView>::empty());
        assert(crate::text::texts(included@) =~= Seq::<Seq<char>>::empty());
        assert(crate::text::texts(filtered@) =~= Seq::<Seq<char>>::empty());
        assert(Seq::<Seq<char>>::empty().to_set() =~= Set::<Seq<char>>::empty());
    }
    let mut i: usize = 0;
    while i < statuses.len()
        invariant
            i <= statuses.len(),
            all == status_views(statuses@),
            first_finalized(all.take(i as int)) is None,
            height == top_height(all.take(i as int)),
            crate::text::texts(included@) == all_included(all.take(i as int)),
            included_set@ == crate::text::texts(included@).to_set(),
            crate::text::texts(filtered@) == all_filtered(all.take(i as int)),
            filtered_set@ == crate::text::texts(filtered@).to_set(),
        decreases statuses.len() - i,
    {
        proof {
            assert(all.take(i + 1).drop_last() =~= all.take(i as int));
            assert(all.take(i + 1).last() == statuses@[i as int]@);
        }
        match &statuses[i] {
            BatchStatus::Accepted { .. } => {},
            BatchStatus::Finalized { height: finalized_height, included: finalized } => {
                proof {
                    first_finalized_is_kept(all, i + 1);
                    assert(all[i as int] == statuses@[i as int]@);
                }
                return Some(
                    BatchStatus::Finalized {
                        height: *finalized_height,
                        included: copy_texts(finalized),
                    },
                );
            },
            BatchStatus::PartiallyFinalized {
                height: finalized_height,
                included: leader_included,
                filtered: leader_filtered,
            } => {
                if *finalized_height > height {
                    height = *finalized_height;
                }
                push_unique(leader_included, &mut included, &mut included_set);
                push_unique(leader_filtered, &mut filtered, &mut filtered_set);
            },
            BatchStatus::Dropped { filtered: leader_filtered } => {
                push_unique(leader_filtered, &mut filtered, &mut filtered_set);
            },
        }
        i += 1;
    }
    proof {
        assert(all.take(i as int) =~= all);
    }
    if included.len() == 0 && filtered.len() == 0 {
        return None;
    }
    let kept = keep_unknown(
        filtered,
        &included_set,
        Ghost(crate::text::texts(included@)),
    );
    if included.len() == 0 {
        return Some(BatchStatus::Dropped { filtered: kept });
    }
    if kept.len() == 0 {
        return Some(BatchStatus::Finalized { height, included });
    }
    Some(BatchStatus::PartiallyFinalized { height, included, filtered: kept })
}

proof fn without_excludes(items: Seq<Seq<char>>, others: Seq<Seq<char>>)
    ensures
        items.no_duplicates() ==> without(items, others).no_duplicates(),
        forall|item: Seq<char>| #[trigger]
            without(items, others).contains(item) <==> items.contains(item) && !others.contains(
                item,
            ),
    decreases items.len(),
{
    if items.len() > 0 {
        let front = without(items.drop_last(), others);
        without_excludes(items.drop_last(), others);
        let all = without(items, others);
        assert(items =~= items.drop_last().push(items.last()));
        assert forall|item: Seq<char>| #[trigger] all.contains(item) <==> items.contains(item)
            && !others.contains(item) by {
            broadcast use vstd::seq_lib::group_seq_properties;

        }
        if items.no_duplicates() {
            assert(items.drop_last().no_duplicates());
            assert(!items.drop_last().contains(items.last())) by {
                if items.drop_last().contains(items.last()) {
                    let at = choose|at: int|
                        0 <= at < items.len() - 1 && items.drop_last()[at] == items.last();
                    assert(items[at] == items[items.len() - 1]);
                }
            }
            assert(!front.contains(items.last()));
        }
    }
}

proof fn collected_digests_are_distinct(statuses: Seq<StatusView>)
    ensures
        all_included(statuses).no_duplicates(),
        all_filtered(statuses).no_duplicates(),
    decreases statuses.len(),
{
    if statuses.len() > 0 {
        let front = statuses.drop_last();
        collected_digests_are_distinct(front);
        match statuses.last() {
            StatusView::PartiallyFinalized { included, filtered, .. } => {
                joining_is_union(all_included(front), included);
                joining_is_union(all_filtered(front), filtered);
            },
            StatusView::Dropped { filtered } => {
                joining_is_union(all_filtered(front), filtered);
            },
            _ => {},
        }
    }
}

/// Whether some status reports a digest as included in part.
pub open spec fn included_somewhere(statuses: Seq<StatusView>, digest: Seq<char>) -> bool {
    exists|i: int|
        0 <= i < statuses.len() && (#[trigger] statuses[i] matches StatusView::PartiallyFinalized {
            included,
            ..
        } && included.contains(digest))
}

/// Everything included anywhere is collected.
proof fn included_is_collected(statuses: Seq<StatusView>, digest: Seq<char>)
    ensures
        all_included(statuses).contains(digest) <==> included_somewhere(statuses, digest),
    decreases statuses.len(),
{
    if statuses.len() > 0 {
        let front = statuses.drop_last();
        included_is_collected(front, digest);
        match statuses.last() {
            StatusView::PartiallyFinalized { included, .. } => {
                joining_is_union(all_included(front), included);
                if included.contains(digest) {
                    assert(statuses[statuses.len() - 1] == statuses.last());
                }
            },
            _ => {},
        }
        if included_somewhere(front, digest) {
            let at = choose|at: int|
                0 <= at < front.len() && (#[trigger] front[at] matches StatusView::PartiallyFinalized {
                    included,
                    ..
                } && included.contains(digest));
            assert(statuses[at] == front[at]);
        }
        if included_somewhere(statuses, digest) {
            let at = choose|at: int|
                0 <= at < statuses.len() && (#[trigger] statuses[at] matches StatusView::PartiallyFinalized {
                    included,
                    ..
                } && included.contains(digest));
            if at < front.len() {
                assert(front[at] == statuses[at]);
            }
        }
    }
}

/// A merged partial outcome never reports a digest both as included and as filtered, and repeats
/// none.
pub proof fn merged_digests_are_disjoint(statuses: Seq<StatusView>)
    requires
        merged(statuses) is Some,
        merged(statuses).unwrap() is PartiallyFinalized,
    ensures
        merged(statuses).unwrap() matches StatusView::PartiallyFinalized {
            included,
            filtered,
            ..
        } && included.no_duplicates() && filtered.no_duplicates() && forall|digest: Seq<char>|
            !(#[trigger] included.contains(digest) && filtered.contains(digest)),
{
    if first_finalized(statuses) is None {
        let included = all_included(statuses);
        collected_digests_are_distinct(statuses);
        without_excludes(all_filtered(statuses), included);
    } else {
        first_finalized_position(statuses);
    }
}

proof fn first_finalized_position(statuses: Seq<StatusView>)
    requires
        first_finalized(statuses) is Some,
    ensures
        0 <= first_finalized(statuses).unwrap() < statuses.len(),
        statuses[first_finalized(statuses).unwrap()] is Finalized,
        forall|j: int|
            0 <= j < first_finalized(statuses).unwrap() ==> !(#[trigger] statuses[j] is Finalized),
    decreases statuses.len(),
{
    let front = statuses.drop_last();
    if first_finalized(front) is Some {
        first_finalized_position(front);
        assert(statuses[first_finalized(front).unwrap()] == front[first_finalized(front).unwrap()]);
        assert forall|j: int| 0 <= j < first_finalized(statuses).unwrap() implies !(#[trigger] statuses[j] is Finalized) by {
            assert(front[j] == statuses[j]);
        }
    } else {
        no_finalized_before(front);
        assert forall|j: int| 0 <= j < first_finalized(statuses).unwrap() implies !(#[trigger] statuses[j] is Finalized) by {
            assert(front[j] == statuses[j]);
        }
    }
}

proof fn no_finalized_before(statuses: Seq<StatusView>)
    requires
        first_finalized(statuses) is None,
    ensures
        forall|j: int| 0 <= j < statuses.len() ==> !(#[trigger] statuses[j] is Finalized),
    decreases statuses.len(),
{
    if statuses.len() > 0 {
        no_finalized_before(statuses.drop_last());
        assert forall|j: int| 0 <= j < statuses.len() implies !(#[trigger] statuses[j] is Finalized) by {
            if j < statuses.len() - 1 {
                assert(statuses.drop_last()[j] == statuses[j]);
            }
        }
    }
}

/// A digest that any leader reports as included is never reported as filtered, unless a full
/// finalization settles the batch.
pub proof fn inclusion_outweighs_filtering(statuses: Seq<StatusView>, digest: Seq<char>)
    requires
        merged(statuses) is Some,
        first_finalized(statuses) is None,
        included_somewhere(statuses, digest),
    ensures
        match merged(statuses).unwrap() {
            StatusView::Finalized { included, .. } => included.contains(digest),
            StatusView::PartiallyFinalized { included, filtered, .. } => included.contains(digest)
                && !filtered.contains(digest),
            _ => false,
        },
{
    included_is_collected(statuses, digest);
    without_excludes(all_filtered(statuses), all_included(statuses));
}

/// A full finalization that any leader reports settles the batch.
pub proof fn finalization_settles(statuses: Seq<StatusView>, at: int)
    requires
        0 <= at < statuses.len(),
        statuses[at] is Finalized,
    ensures
        merged(statuses) is Some,
        merged(statuses).unwrap() is Finalized,
{
    if first_finalized(statuses) is None {
        no_finalized_before(statuses);
    } else {
        first_finalized_position(statuses);
    }
}

/// Whether a status reports a digest as included in part.
pub open spec fn reports_included(status: StatusView, digest: Seq<char>) -> bool {
    status matches StatusView::PartiallyFinalized { included, .. } && included.contains(digest)
}

/// Whether a status reports a digest as filtered.
pub open spec fn reports_filtered(status: StatusView, digest: Seq<char>) -> bool {
    match status {
        StatusView::PartiallyFinalized { filtered, .. } => filtered.contains(digest),
        StatusView::Dropped { filtered } => filtered.contains(digest),
        _ => false,
    }
}

proof fn collected_inclusion(statuses: Seq<StatusView>, digest: Seq<char>)
    ensures
        all_included(statuses).contains(digest) <==> exists|i: int|
            0 <= i < statuses.len() && reports_included(#[trigger] statuses[i], digest),
{
    included_is_collected(statuses, digest);
    if included_somewhere(statuses, digest) {
        let at = choose|at: int|
            0 <= at < statuses.len() && (#[trigger] statuses[at] matches StatusView::PartiallyFinalized {
                included,
                ..
            } && included.contains(digest));
        assert(reports_included(statuses[at], digest));
    }
}

proof fn collected_filtering(statuses: Seq<StatusView>, digest: Seq<char>)
    ensures
        all_filtered(statuses).contains(digest) <==> exists|i: int|
            0 <= i < statuses.len() && reports_filtered(#[trigger] statuses[i], digest),
    decreases statuses.len(),
{
    if statuses.len() > 0 {
        let front = statuses.drop_last();
        collected_filtering(front, digest);
        match statuses.last() {
            StatusView::PartiallyFinalized { filtered, .. } => {
                joining_is_union(all_filtered(front), filtered);
            },
            StatusView::Dropped { filtered } => {
                joining_is_union(all_filtered(front), filtered);
            },
            _ => {},
        }
        if reports_filtered(statuses.last(), digest) {
            assert(reports_filtered(statuses[statuses.len() - 1], digest));
        }
        if all_filtered(front).contains(digest) {
            let at = choose|at: int|
                0 <= at < front.len() && reports_filtered(#[trigger] front[at], digest);
            assert(reports_filtered(statuses[at], digest));
        }
        if exists|i: int| 0 <= i < statuses.len() && reports_filtered(#[trigger] statuses[i], digest) {
            let at = choose|at: int|
                0 <= at < statuses.len() && reports_filtered(#[trigger] statuses[at], digest);
            if at < front.len() {
                assert(reports_filtered(front[at], digest));
            }
        }
    }
}

/// While no leader reports a full finalization, a digest that some leader filtered and no leader
/// included stays filtered in the outcome: the outcome is not a full finalization, and it is
/// partial exactly if some other digest was included.
pub proof fn filtered_digest_stays_filtered(
    statuses: Seq<StatusView>,
    filtering: int,
    digest: Seq<char>,
)
    requires
        forall|i: int| 0 <= i < statuses.len() ==> !(#[trigger] statuses[i] is Finalized),
        0 <= filtering < statuses.len(),
        reports_filtered(statuses[filtering], digest),
        forall|i: int|
            0 <= i < statuses.len() ==> !reports_included(#[trigger] statuses[i], digest),
    ensures
        match merged(statuses) {
            Some(StatusView::PartiallyFinalized { filtered, .. }) => filtered.contains(digest)
                && exists|i: int, other: Seq<char>|
                0 <= i < statuses.len() && #[trigger] reports_included(statuses[i], other),
            Some(StatusView::Dropped { filtered }) => filtered.contains(digest) && forall|
                i: int,
                other: Seq<char>,
            |
                0 <= i < statuses.len() ==> !#[trigger] reports_included(statuses[i], other),
            _ => false,
        },
{
    nothing_finalized(statuses);
    let included = all_included(statuses);
    collected_inclusion(statuses, digest);
    collected_filtering(statuses, digest);
    without_excludes(all_filtered(statuses), included);
    assert(reports_filtered(statuses[filtering], digest));
    assert(without(all_filtered(statuses), included).contains(digest));
    if included.len() > 0 {
        let other = included[0];
        assert(included.contains(other));
        collected_inclusion(statuses, other);
        let at = choose|at: int|
            0 <= at < statuses.len() && reports_included(#[trigger] statuses[at], other);
        assert(reports_included(statuses[at], other));
    } else {
        assert forall|i: int, other: Seq<char>| 0 <= i < statuses.len() implies !#[trigger] reports_included(
            statuses[i],
            other,
        ) by {
            collected_inclusion(statuses, other);
            if reports_included(statuses[i], other) {
                assert(included.contains(other));
            }
        }
    }
}

proof fn nothing_finalized(statuses: Seq<StatusView>)
    requires
        forall|i: int| 0 <= i < statuses.len() ==> !(#[trigger] statuses[i] is Finalized),
    ensures
        first_finalized(statuses) is None,
{
    if first_finalized(statuses) is Some {
        first_finalized_position(statuses);
    }
}

/// Whether an outcome says of a digest what the leaders say of it: it lists the digest as included
/// exactly if some leader included it, and as filtered exactly if some leader filtered it and none
/// included it.
pub open spec fn speaks_for(
    outcome: Option<StatusView>,
    statuses: Seq<StatusView>,
    digest: Seq<char>,
) -> bool {
    let includes = exists|i: int|
        0 <= i < statuses.len() && reports_included(#[trigger] statuses[i], digest);
    let filters = exists|i: int|
        0 <= i < statuses.len() && reports_filtered(#[trigger] statuses[i], digest);
    match outcome {
        Some(StatusView::Finalized { included, .. }) => {
            &&& included.contains(digest) <==> includes
            &&& filters ==> includes
        },
        Some(StatusView::PartiallyFinalized { included, filtered, .. }) => {
            &&& included.contains(digest) <==> includes
            &&& filtered.contains(digest) <==> filters && !includes
        },
        Some(StatusView::Dropped { filtered }) => {
            &&& !includes
            &&& filtered.contains(digest) <==> filters
        },
        Some(StatusView::Accepted { .. }) => false,
        None => !includes && !filters,
    }
}

/// While no leader reports a full finalization, the outcome says of a digest what the leaders say
/// of it: it lists the digest as included exactly if some leader included it, and as filtered
/// exactly if some leader filtered it and none included it. There is no outcome exactly if
/// nobody reports any digest.
pub proof fn outcome_speaks_for_leaders(statuses: Seq<StatusView>, digest: Seq<char>)
    requires
        forall|i: int| 0 <= i < statuses.len() ==> !(#[trigger] statuses[i] is Finalized),
    ensures
        speaks_for(merged(statuses), statuses, digest),
        merged(statuses) is None ==> forall|i: int|
            #![trigger statuses[i]]
            0 <= i < statuses.len() ==> match statuses[i] {
                StatusView::PartiallyFinalized { included, filtered, .. } => included.len() == 0
                    && filtered.len() == 0,
                StatusView::Dropped { filtered } => filtered.len() == 0,
                _ => true,
            },
{
    nothing_finalized(statuses);
    let included = all_included(statuses);
    let filtered = all_filtered(statuses);
    collected_inclusion(statuses, digest);
    collected_filtering(statuses, digest);
    without_excludes(filtered, included);
    let kept = without(filtered, included);
    assert(kept.contains(digest) <==> filtered.contains(digest) && !included.contains(digest));
    assert(kept.len() == 0 ==> !kept.contains(digest));
    assert(included.len() == 0 ==> !included.contains(digest));
    assert(filtered.len() == 0 ==> !filtered.contains(digest));
    if merged(statuses) is None {
        assert forall|i: int|
            #![trigger statuses[i]]
            0 <= i < statuses.len() implies match statuses[i] {
            StatusView::PartiallyFinalized { included, filtered, .. } => included.len() == 0
                && filtered.len() == 0,
            StatusView::Dropped { filtered } => filtered.len() == 0,
            _ => true,
        } by {
            match statuses[i] {
                StatusView::PartiallyFinalized { included: own, filtered: out, .. } => {
                    if own.len() > 0 {
                        collected_inclusion(statuses, own[0]);
                        assert(reports_included(statuses[i], own[0]));
                        assert(included.contains(own[0]));
                    }
                    if out.len() > 0 {
                        collected_filtering(statuses, out[0]);
                        assert(reports_filtered(statuses[i], out[0]));
                        assert(filtered.contains(out[0]));
                    }
                },
                StatusView::Dropped { filtered: out } => {
                    if out.len() > 0 {
                        collected_filtering(statuses, out[0]);
                        assert(reports_filtered(statuses[i], out[0]));
                        assert(filtered.contains(out[0]));
                    }
                },
                _ => {},
            }
        }
    }
}

proof fn top_height_is_largest(statuses: Seq<StatusView>)
    ensures
        forall|i: int|
            #![trigger statuses[i]]
            0 <= i < statuses.len() ==> match statuses[i] {
                StatusView::PartiallyFinalized { height, .. } => height <= top_height(statuses),
                _ => true,
            },
        top_height(statuses) == 0 || exists|i: int|
            0 <= i < statuses.len() && (#[trigger] statuses[i] matches StatusView::PartiallyFinalized {
                height,
                ..
            } && height == top_height(statuses)),
    decreases statuses.len(),
{
    if statuses.len() > 0 {
        let front = statuses.drop_last();
        top_height_is_largest(front);
        assert forall|i: int|
            #![trigger statuses[i]]
            0 <= i < statuses.len() implies match statuses[i] {
            StatusView::PartiallyFinalized { height, .. } => height <= top_height(statuses),
            _ => true,
        } by {
            if i < front.len() {
                assert(front[i] == statuses[i]);
            }
        }
        if top_height(statuses) != 0 {
            if top_height(statuses) == top_height(front) {
                let at = choose|at: int|
                    0 <= at < front.len() && (#[trigger] front[at] matches StatusView::PartiallyFinalized {
                        height,
                        ..
                    } && height == top_height(front));
                assert(statuses[at] == front[at]);
            } else {
                assert(statuses[statuses.len() - 1] == statuses.last());
            }
        }
    }
}

/// While no leader reports a full finalization, the outcome's height is the largest that a leader
/// reports: none reports more, and one reports just that.
pub proof fn outcome_height_is_largest(statuses: Seq<StatusView>)
    requires
        forall|i: int| 0 <= i < statuses.len() ==> !(#[trigger] statuses[i] is Finalized),
    ensures
        match merged(statuses) {
            Some(StatusView::Finalized { height, .. }) => is_largest_height(statuses, height),
            Some(StatusView::PartiallyFinalized { height, .. }) => is_largest_height(
                statuses,
                height,
            ),
            _ => true,
        },
{
    nothing_finalized(statuses);
    top_height_is_largest(statuses);
    let included = all_included(statuses);
    if included.len() > 0 {
        let digest = included[0];
        assert(included.contains(digest));
        collected_inclusion(statuses, digest);
        let at = choose|at: int|
            0 <= at < statuses.len() && reports_included(#[trigger] statuses[at], digest);
        assert(statuses[at] is PartiallyFinalized);
        if top_height(statuses) == 0 {
            assert(statuses[at] matches StatusView::PartiallyFinalized { height, .. } && height
                == 0);
        }
    }
}

/// Whether no partial status reports more than `largest`, and one reports just that.
pub open spec fn is_largest_height(statuses: Seq<StatusView>, largest: u64) -> bool {
    &&& forall|i: int|
        #![trigger statuses[i]]
        0 <= i < statuses.len() ==> match statuses[i] {
            StatusView::PartiallyFinalized { height, .. } => height <= largest,
            _ => true,
        }
    &&& exists|i: int|
        0 <= i < statuses.len() && (#[trigger] statuses[i] matches StatusView::PartiallyFinalized {
            height,
            ..
        } && height == largest)
}

/// The first full finalization that a leader reports is the outcome, unchanged.
pub proof fn first_finalization_is_outcome(statuses: Seq<StatusView>, at: int)
    requires
        0 <= at < statuses.len(),
        statuses[at] is Finalized,
        forall|i: int| 0 <= i < at ==> !(#[trigger] statuses[i] is Finalized),
    ensures
        merged(statuses) == Some(statuses[at]),
{
    if first_finalized(statuses) is None {
        no_finalized_before(statuses);
    } else {
        first_finalized_position(statuses);
        let found = first_finalized(statuses).unwrap();
        assert(found == at) by {
            if found < at {
                assert(!(statuses[found] is Finalized));
            }
            if at < found {
                assert(!(statuses[at] is Finalized));
            }
        }
    }
}

/// One leader's partial report, free of repetition and of contradiction, is its own outcome.
pub proof fn single_report_stands(height: u64, included: Seq<Seq<char>>, filtered: Seq<Seq<char>>)
    requires
        included.len() > 0,
        filtered.len() > 0,
        included.no_duplicates(),
        filtered.no_duplicates(),
        forall|digest: Seq<char>| !(#[trigger] included.contains(digest) && filtered.contains(digest)),
    ensures
        merged(seq![StatusView::PartiallyFinalized { height, included, filtered }]) == Some(
            StatusView::PartiallyFinalized { height, included, filtered },
        ),
{
    let status = StatusView::PartiallyFinalized { height, included, filtered };
    let statuses = seq![status];
    assert(statuses.drop_last() =~= Seq::<StatusView>::empty());
    assert(statuses.last() == status);
    let nothing = Seq::<StatusView>::empty();
    assert(first_finalized(nothing) is None);
    assert(all_included(nothing) =~= Seq::<Seq<char>>::empty());
    assert(all_filtered(nothing) =~= Seq::<Seq<char>>::empty());
    assert(top_height(nothing) == 0);
    joining_distinct(included);
    joining_distinct(filtered);
    without_strangers(filtered, included);
    assert(all_included(statuses) == included);
    assert(all_filtered(statuses) == filtered);
    assert(top_height(statuses) == height);
}

proof fn joining_distinct(values: Seq<Seq<char>>)
    requires
        values.no_duplicates(),
    ensures
        joined_unique(Seq::empty(), values) == values,
    decreases values.len(),
{
    if values.len() > 0 {
        let front = values.drop_last();
        assert forall|i: int, j: int| 0 <= i < front.len() && 0 <= j < front.len() && i != j implies front[i]
            != front[j] by {
            assert(values[i] != values[j]);
        }
        joining_distinct(front);
        assert(!front.contains(values.last())) by {
            if front.contains(values.last()) {
                let at = choose|at: int| 0 <= at < front.len() && front[at] == values.last();
                assert(values[at] == values[values.len() - 1]);
            }
        }
        assert(front.push(values.last()) =~= values);
    }
}

proof fn without_strangers(items: Seq<Seq<char>>, others: Seq<Seq<char>>)
    requires
        forall|item: Seq<char>| !(#[trigger] others.contains(item) && items.contains(item)),
    ensures
        without(items, others) == items,
    decreases items.len(),
{
    if items.len() > 0 {
        let front = items.drop_last();
        assert forall|item: Seq<char>| !(#[trigger] others.contains(item) && front.contains(item)) by {
            if front.contains(item) {
                let at = choose|at: int| 0 <= at < front.len() && front[at] == item;
                assert(items[at] == item);
                assert(items.contains(item));
            }
        }
        without_strangers(front, others);
        assert(items[items.len() - 1] == items.last());
        assert(items.contains(items.last()));
        assert(front.push(items.last()) =~= items);
    }
}

/// What a call of [`merge_terminal_statuses`] answers. A full finalization that a leader reports
/// comes back as the first such leader reports it. Otherwise the answer says of every digest what
/// the leaders say of it: a digest filtered somewhere and included nowhere is among the filtered,
/// so the answer is a full finalization only if every filtered digest is included somewhere, and
/// its height is the largest that a leader reports.
pub proof fn merging_answers_for_leaders(
    statuses: Vec<BatchStatus>,
    status: Option<BatchStatus>,
    digest: Seq<char>,
)
    requires
        call_ensures(merge_terminal_statuses, (&statuses,), status),
    ensures
        forall|at: int|
            0 <= at < statuses@.len() && #[trigger] statuses@[at] is Finalized && (forall|i: int|
                0 <= i < at ==> !(#[trigger] statuses@[i] is Finalized)) ==> status is Some
                && status.unwrap()@ == statuses@[at]@,
        (forall|i: int| 0 <= i < statuses@.len() ==> !(#[trigger] statuses@[i] is Finalized)) ==> {
            let outcome = match status {
                Some(status) => Some(status@),
                None => None,
            };
            &&& speaks_for(outcome, status_views(statuses@), digest)
            &&& match outcome {
                Some(StatusView::Finalized { height, included }) => {
                    &&& included.len() > 0
                    &&& included.no_duplicates()
                    &&& is_largest_height(status_views(statuses@), height)
                },
                Some(StatusView::PartiallyFinalized { height, included, filtered }) => {
                    &&& included.len() > 0
                    &&& filtered.len() > 0
                    &&& included.no_duplicates()
                    &&& filtered.no_duplicates()
                    &&& is_largest_height(status_views(statuses@), height)
                },
                Some(StatusView::Dropped { filtered }) => {
                    &&& filtered.len() > 0
                    &&& filtered.no_duplicates()
                },
                _ => true,
            }
        },
{
    let views = status_views(statuses@);
    assert forall|at: int|
        0 <= at < statuses@.len() && #[trigger] statuses@[at] is Finalized && (forall|i: int|
            0 <= i < at ==> !(#[trigger] statuses@[i] is Finalized)) implies status is Some
        && status.unwrap()@ == statuses@[at]@ by {
        assert(views[at] == statuses@[at]@);
        assert forall|i: int| 0 <= i < at implies !(#[trigger] views[i] is Finalized) by {
            assert(views[i] == statuses@[i]@);
            assert(!(statuses@[i] is Finalized));
        }
        first_finalization_is_outcome(views, at);
    }
    if forall|i: int| 0 <= i < statuses@.len() ==> !(#[trigger] statuses@[i] is Finalized) {
        assert forall|i: int| 0 <= i < views.len() implies !(#[trigger] views[i] is Finalized) by {
            assert(views[i] == statuses@[i]@);
            assert(!(statuses@[i] is Finalized));
        }
        nothing_finalized(views);
        outcome_speaks_for_leaders(views, digest);
        outcome_height_is_largest(views);
        let included = all_included(views);
        collected_digests_are_distinct(views);
        without_excludes(all_filtered(views), included);
        if included.len() == 0 && all_filtered(views).len() > 0 {
            let first = all_filtered(views)[0];
            assert(all_filtered(views).contains(first));
            assert(without(all_filtered(views), included).contains(first));
        }
    }
}

/// What asking leader after leader has brought so far.
pub struct StatusCollector {
    accepted: Option<BatchStatus>,
    terminal: Vec<BatchStatus>,
    answers: Ghost<Seq<StatusView>>,
}

/// The last acceptance among answers.
pub open spec fn last_accepted(answers: Seq<StatusView>) -> Option<StatusView>
    decreases answers.len(),
{
    if answers.len() == 0 {
        None
    } else if answers.last() is Accepted {
        Some(answers.last())
    } else {
        last_accepted(answers.drop_last())
    }
}

/// The answers that settle something in part or not at all, in order.
pub open spec fn terminal_answers(answers: Seq<StatusView>) -> Seq<StatusView>
    decreases answers.len(),
{
    if answers.len() == 0 {
        Seq::empty()
    } else {
        let front = terminal_answers(answers.drop_last());
        if answers.last() is PartiallyFinalized || answers.last() is Dropped {
            front.push(answers.last())
        } else {
            front
        }
    }
}

/// What the answers of the leaders amount to while none reports a full finalization: the batch is
/// still waiting if anyone says so, and otherwise the terminal answers merge.
pub open spec fn settled(answers: Seq<StatusView>) -> Option<StatusView> {
    match last_accepted(answers) {
        Some(status) => Some(status),
        None => merged(terminal_answers(answers)),
    }
}

proof fn unsettled_answers_are_terminal(answers: Seq<StatusView>)
    requires
        forall|i: int|
            0 <= i < answers.len() ==> #[trigger] answers[i] is PartiallyFinalized
                || answers[i] is Dropped,
    ensures
        terminal_answers(answers) == answers,
        last_accepted(answers) is None,
    decreases answers.len(),
{
    if answers.len() > 0 {
        let front = answers.drop_last();
        assert forall|i: int| 0 <= i < front.len() implies #[trigger] front[i] is PartiallyFinalized
            || front[i] is Dropped by {
            assert(front[i] == answers[i]);
        }
        unsettled_answers_are_terminal(front);
        assert(answers[answers.len() - 1] == answers.last());
        assert(front.push(answers.last()) =~= answers);
    }
}

/// A batch that a leader still holds is waiting, whatever the others say: the last such answer is
/// the result.
pub proof fn acceptance_keeps_waiting(answers: Seq<StatusView>, at: int)
    requires
        0 <= at < answers.len(),
        answers[at] is Accepted,
        forall|i: int| at < i < answers.len() ==> !(#[trigger] answers[i] is Accepted),
    ensures
        settled(answers) == Some(answers[at]),
    decreases answers.len(),
{
    if at < answers.len() - 1 {
        let front = answers.drop_last();
        assert(front[at] == answers[at]);
        assert(!(answers[answers.len() - 1] is Accepted));
        assert forall|i: int| at < i < front.len() implies !(#[trigger] front[i] is Accepted) by {
            assert(front[i] == answers[i]);
        }
        acceptance_keeps_waiting(front, at);
        accepted_stays(front, at);
    }
}

proof fn accepted_stays(answers: Seq<StatusView>, at: int)
    requires
        0 <= at < answers.len(),
        answers[at] is Accepted,
    ensures
        last_accepted(answers) is Some,
    decreases answers.len(),
{
    if !(answers.last() is Accepted) {
        let front = answers.drop_last();
        assert(front[at] == answers[at]);
        accepted_stays(front, at);
    }
}

/// Once no leader waits, the result is what all the answers merge to; without answers there is
/// none.
pub proof fn answers_merge_once_nobody_waits(answers: Seq<StatusView>)
    requires
        forall|i: int|
            0 <= i < answers.len() ==> #[trigger] answers[i] is PartiallyFinalized
                || answers[i] is Dropped,
    ensures
        settled(answers) == merged(answers),
        answers.len() == 0 ==> settled(answers) is None,
{
    unsettled_answers_are_terminal(answers);
}

impl StatusCollector {
    /// The answers collected so far.
    pub closed spec fn answers(self) -> Seq<StatusView> {
        self.answers@
    }

    /// Whether the collector stands for its answers.
    pub closed spec fn well_formed(self) -> bool {
        &&& match (self.accepted, last_accepted(self.answers@)) {
            (Some(status), Some(view)) => status@ == view,
            (None, None) => true,
            _ => false,
        }
        &&& status_views(self.terminal@) == terminal_answers(self.answers@)
    }

    /// Nobody has answered yet.
    pub fn new() -> (collector: Self)
        ensures
            collector.well_formed(),
            collector.answers() == Seq::<StatusView>::empty(),
    {
        let collector = StatusCollector {
            accepted: None,
            terminal: Vec::new(),
            answers: Ghost(Seq::empty()),
        };
        proof {
            assert(status_views(collector.terminal@) =~= Seq::<StatusView>::empty());
        }
        collector
    }

    /// Takes one leader's answer in. A full finalization comes straight back: it is the result, and
    /// nobody else needs to be asked.
    pub fn observe(&mut self, status: BatchStatus) -> (result: Option<BatchStatus>)
        requires
            old(self).well_formed(),
        ensures
            final(self).well_formed(),
            match result {
                Some(result) => status is Finalized && result == status && final(self).answers()
                    == old(self).answers(),
                None => !(status is Finalized) && final(self).answers() == old(self).answers().push(
                    status@,
                ),
            },
    {
        let ghost before = self.answers@;
        let ghost grown = before.push(status@);
        proof {
            assert(grown.drop_last() =~= before);
        }
        match status {
            BatchStatus::Finalized { .. } => {
                return Some(status);
            },
            BatchStatus::Accepted { .. } => {
                self.accepted = Some(status);
            },
            _ => {
                let ghost terminal = status_views(self.terminal@);
                self.terminal.push(status);
                proof {
                    assert(status_views(self.terminal@) =~= terminal.push(status@));
                }
            },
        }
        self.answers = Ghost(grown);
        None
    }

    /// Returns what the answers amount to.
    pub fn finish(self) -> (result: Option<BatchStatus>)
        requires
            self.well_formed(),
        ensures
            match result {
                Some(status) => settled(self.answers()) == Some(status@),
                None => settled(self.answers()) is None,
            },
    {
        match self.accepted {
            Some(status) => Some(status),
            None => merge_terminal_statuses(&self.terminal),
        }
    }
}

/// A full finalization that a leader answers ends the asking and is the result. Any other answer is
/// collected. While some leader still holds the batch, the last such answer is the result.
pub proof fn collecting_answers_settles(
    collector: &mut StatusCollector,
    status: BatchStatus,
    early: Option<BatchStatus>,
    result: Option<BatchStatus>,
)
    requires
        old(collector).well_formed(),
        call_ensures(StatusCollector::observe, (collector, status), early),
        call_ensures(StatusCollector::finish, (*final(collector),), result),
    ensures
        status is Finalized ==> early == Some(status),
        !(status is Finalized) ==> early is None,
        status is Accepted ==> (result matches Some(settled) && settled@ == status@),
        status is Dropped || status is PartiallyFinalized ==> final(collector).answers().len()
            == old(collector).answers().len() + 1,
{
    if status is Accepted {
        let answers = final(collector).answers();
        acceptance_keeps_waiting(answers, answers.len() - 1);
    }
}

/// Who is asked for a batch's status: first the leaders that it was sent to, in the order in which they
/// are listed, then whoever else acknowledged it, and nobody twice.
pub proof fn targeted_leaders_are_asked_first(
    record: BatchRecord,
    leaders: Vec<String>,
    leader: Seq<char>,
)
    requires
        call_ensures(status_leaders, (&record,), leaders),
    ensures
        ({
            let asked = crate::text::texts(leaders@);
            let targeted = crate::text::texts(record.targeted_leaders@);
            let acknowledged = crate::text::texts(record.acknowledged_leaders@);
            &&& asked.no_duplicates()
            &&& asked.contains(leader) <==> targeted.contains(leader) || acknowledged.contains(
                leader,
            )
            &&& targeted.no_duplicates() ==> targeted.is_prefix_of(asked)
        }),
{
    let targeted = crate::text::texts(record.targeted_leaders@);
    let acknowledged = crate::text::texts(record.acknowledged_leaders@);
    status_order_covers_leaders(record);
    joining_is_union(joined_unique(Seq::empty(), targeted), acknowledged);
    if targeted.no_duplicates() {
        joining_distinct(targeted);
    }
}

/// Once no leader waits for the batch, what [`StatusCollector::finish`] gives says of every digest what
/// the collected answers say of it.
pub proof fn finished_collection_speaks_for_leaders(
    collector: StatusCollector,
    result: Option<BatchStatus>,
    digest: Seq<char>,
)
    requires
        collector.well_formed(),
        call_ensures(StatusCollector::finish, (collector,), result),
        forall|i: int|
            0 <= i < collector.answers().len() ==> #[trigger] collector.answers()[i]
                is PartiallyFinalized || collector.answers()[i] is Dropped,
    ensures
        speaks_for(
            match result {
                Some(status) => Some(status@),
                None => None,
            },
            collector.answers(),
            digest,
        ),
{
    let answers = collector.answers();
    answers_merge_once_nobody_waits(answers);
    assert forall|i: int| 0 <= i < answers.len() implies !(#[trigger] answers[i] is Finalized) by {}
    outcome_speaks_for_leaders(answers, digest);
}

proof fn collections_grow(statuses: Seq<StatusView>, count: int)
    requires
        0 <= count <= statuses.len(),
    ensures
        all_included(statuses.take(count)).is_prefix_of(all_included(statuses)),
        all_filtered(statuses.take(count)).is_prefix_of(all_filtered(statuses)),
    decreases statuses.len(),
{
    if count == statuses.len() {
        assert(statuses.take(count) =~= statuses);
    } else {
        let front = statuses.drop_last();
        assert(front.take(count) =~= statuses.take(count));
        collections_grow(front, count);
        match statuses.last() {
            StatusView::PartiallyFinalized { included, filtered, .. } => {
                joining_is_union(all_included(front), included);
                joining_is_union(all_filtered(front), filtered);
                prefixes_chain(
                    all_included(statuses.take(count)),
                    all_included(front),
                    all_included(statuses),
                );
                prefixes_chain(
                    all_filtered(statuses.take(count)),
                    all_filtered(front),
                    all_filtered(statuses),
                );
            },
            StatusView::Dropped { filtered } => {
                joining_is_union(all_filtered(front), filtered);
                prefixes_chain(
                    all_filtered(statuses.take(count)),
                    all_filtered(front),
                    all_filtered(statuses),
                );
            },
            _ => {},
        }
    }
}

proof fn prefixes_chain(first: Seq<Seq<char>>, second: Seq<Seq<char>>, third: Seq<Seq<char>>)
    requires
        first.is_prefix_of(second),
        second.is_prefix_of(third),
    ensures
        first.is_prefix_of(third),
{
    assert(first =~= third.subrange(0, first.len() as int)) by {
        assert forall|i: int| 0 <= i < first.len() implies first[i] == third[i] by {
            assert(first[i] == second.subrange(0, first.len() as int)[i]);
            assert(second[i] == third.subrange(0, second.len() as int)[i]);
        }
    }
}

/// The digests that an outcome lists as included.
pub open spec fn outcome_included(outcome: Option<BatchStatus>) -> Seq<Seq<char>> {
    match outcome {
        Some(BatchStatus::Finalized { included, .. }) => crate::text::texts(included@),
        Some(BatchStatus::PartiallyFinalized { included, .. }) => crate::text::texts(included@),
        _ => Seq::empty(),
    }
}

/// Digests are listed in the order in which the leaders report them: reports that come later add to the
/// end of what is included. While nothing is included, the same holds of what is filtered.
pub proof fn later_reports_add_at_the_end(
    statuses: Vec<BatchStatus>,
    more: Vec<BatchStatus>,
    outcome: Option<BatchStatus>,
    grown: Option<BatchStatus>,
)
    requires
        call_ensures(merge_terminal_statuses, (&statuses,), outcome),
        call_ensures(merge_terminal_statuses, (&more,), grown),
        statuses@.is_prefix_of(more@),
        forall|i: int| 0 <= i < more@.len() ==> !(#[trigger] more@[i] is Finalized),
    ensures
        outcome_included(outcome).is_prefix_of(outcome_included(grown)),
        (outcome, grown) matches (
            Some(BatchStatus::Dropped { filtered: before }),
            Some(BatchStatus::Dropped { filtered: after }),
        ) ==> crate::text::texts(before@).is_prefix_of(crate::text::texts(after@)),
{
    let few = status_views(statuses@);
    let many = status_views(more@);
    assert forall|i: int| 0 <= i < many.len() implies !(#[trigger] many[i] is Finalized) by {
        assert(many[i] == more@[i]@);
        assert(!(more@[i] is Finalized));
    }
    assert forall|i: int| 0 <= i < few.len() implies few[i] == many[i] by {
        assert(statuses@[i] == more@.subrange(0, statuses@.len() as int)[i]);
    }
    assert(many.take(few.len() as int) =~= few);
    assert forall|i: int| 0 <= i < few.len() implies !(#[trigger] few[i] is Finalized) by {
        assert(!(many[i] is Finalized));
    }
    nothing_finalized(few);
    nothing_finalized(many);
    collections_grow(many, few.len() as int);
    if all_included(many).len() == 0 {
        without_nothing(all_filtered(few), all_included(few));
        without_nothing(all_filtered(many), all_included(many));
    }
    assert(outcome_included(outcome) =~= all_included(few));
    assert(outcome_included(grown) =~= all_included(many));
}

proof fn without_nothing(items: Seq<Seq<char>>, others: Seq<Seq<char>>)
    requires
        others.len() == 0,
    ensures
        without(items, others) == items,
{
    assert forall|item: Seq<char>| !(#[trigger] others.contains(item) && items.contains(item)) by {}
    without_strangers(items, others);
}

} // verus!
