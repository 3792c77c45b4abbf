//! Batches the relayer remembers, oldest forgotten first.

use std::collections::VecDeque;
use vstd::hash_map::StringHashMap;
use vstd::prelude::*;

verus! {

/// Which leaders a batch was sent to and which of them acknowledged it.
#[derive(Debug, Clone)]
pub struct BatchRecord {
    /// Public keys of the leaders that acknowledged the batch.
    pub acknowledged_leaders: Vec<String>,
    /// Public keys of the leaders that the batch was sent to.
    pub targeted_leaders: Vec<String>,
}

impl BatchRecord {
    /// Returns a copy of the record.
    pub fn copy(&self) -> (copied: BatchRecord)
        ensures
            copied.acknowledged_leaders@ == self.acknowledged_leaders@,
            copied.targeted_leaders@ == self.targeted_leaders@,
    {
        BatchRecord {
            acknowledged_leaders: crate::text::copy_texts(&self.acknowledged_leaders),
            targeted_leaders: crate::text::copy_texts(&self.targeted_leaders),
        }
    }
}

/// The remembered batches: records by batch id, the ids in order of arrival, and how many fit.
pub struct TrackedBatches {
    records: StringHashMap<BatchRecord>,
    order: VecDeque<String>,
    max_records: usize,
}

/// What a [`TrackedBatches`] holds.
pub struct TrackedView {
    pub records: Map<Seq<char>, BatchRecord>,
    pub order: Seq<Seq<char>>,
    pub max_records: nat,
}

impl View for TrackedBatches {
    type V = TrackedView;

    closed spec fn view(&self) -> TrackedView {
        TrackedView {
            records: self.records@,
            order: Seq::new(self.order@.len(), |i: int| self.order@[i]@),
            max_records: self.max_records as nat,
        }
    }
}

impl TrackedView {
    /// Whether every remembered batch has one place in the order, and no more are held than fit.
    pub open spec fn well_formed(self) -> bool {
        &&& self.max_records >= 1
        &&& self.order.no_duplicates()
        &&& self.order.to_set() == self.records.dom()
        &&& self.order.len() <= self.max_records
    }

    /// The batches after one more is remembered: a new batch joins at the end, and if there is no
    /// room left for it the oldest batch goes.
    pub open spec fn remembering(self, batch_id: Seq<char>, record: BatchRecord) -> TrackedView {
        if self.records.dom().contains(batch_id) {
            TrackedView { records: self.records.insert(batch_id, record), ..self }
        } else if self.order.len() < self.max_records {
            TrackedView {
                records: self.records.insert(batch_id, record),
                order: self.order.push(batch_id),
                ..self
            }
        } else {
            TrackedView {
                records: self.records.insert(batch_id, record).remove(self.order[0]),
                order: self.order.push(batch_id).drop_first(),
                ..self
            }
        }
    }
}

impl TrackedBatches {
    /// Nothing is remembered yet; there is always room for one batch.
    pub fn new(max_records: usize) -> (batches: Self)
        ensures
            batches@.well_formed(),
            batches@.records == Map::<Seq<char>, BatchRecord>::empty(),
            batches@.order == Seq::<Seq<char>>::empty(),
            batches@.max_records == if max_records < 1 {
                1
            } else {
                max_records as nat
            },
    {
        let batches = TrackedBatches {
            records: StringHashMap::new(),
            order: VecDeque::new(),
            max_records: if max_records < 1 { 1 } else { max_records },
        };
        proof {
            assert(batches@.order =~= Seq::<Seq<char>>::empty());
            assert(batches@.order.to_set() =~= batches@.records.dom());
        }
        batches
    }

    /// Returns the record of a batch.
    pub fn get(&self, batch_id: &str) -> (record: Option<&BatchRecord>)
        ensures
            match record {
                Some(record) => self@.records.dom().contains(batch_id@) && *record
                    == self@.records[batch_id@],
                None => !self@.records.dom().contains(batch_id@),
            },
    {
        self.records.get(batch_id)
    }

    /// Remembers a batch, forgetting the oldest one if there is no room left.
    pub fn remember(&mut self, batch_id: String, record: BatchRecord)
        requires
            old(self)@.well_formed(),
        ensures
            final(self)@.well_formed(),
            final(self)@ == old(self)@.remembering(batch_id@, record),
    {
        let ghost before = self@;
        let ghost id = batch_id@;
        let known = self.records.contains_key(batch_id.as_str());
        if !known {
            self.order.push_back(batch_id.clone());
        }
        self.records.insert(batch_id, record);
        let ghost joined = self@;
        proof {
            if known {
                assert(joined.order =~= before.order);
                assert(joined.records.dom() =~= before.records.dom());
            } else {
                assert(joined.order =~= before.order.push(id));
                assert(!before.order.to_set().contains(id));
                assert(joined.order.to_set() =~= joined.records.dom()) by {
                    before.order.lemma_push_to_set_commute(id);
                }
                assert(joined.order.no_duplicates()) by {
                    assert(!before.order.contains(id));
                }
            }
            joined.order.unique_seq_to_set();
        }
        while self.records.len() > self.max_records && self.order.len() > 0
            invariant
                self@.max_records == before.max_records,
                before.well_formed(),
                joined.order.no_duplicates(),
                joined.order.to_set() == joined.records.dom(),
                joined.order.len() <= before.max_records + 1,
                joined.max_records == before.max_records,
                self@ == joined || (joined.order.len() > before.max_records && self@.order
                    == joined.order.drop_first() && self@.records == joined.records.remove(
                    joined.order[0],
                )),
                self@.order.no_duplicates(),
                self@.order.to_set() == self@.records.dom(),
            decreases self.order.len(),
        {
            proof {
                self@.order.unique_seq_to_set();
            }
            let ghost current = self@;
            if let Some(expired) = self.order.pop_front() {
                self.records.remove(expired.as_str());
                proof {
                    assert(self@.order =~= current.order.drop_first());
                    assert(expired@ == current.order[0]);
                    assert(self@.order.to_set() =~= self@.records.dom()) by {
                        assert forall|key: Seq<char>|
                            self@.order.to_set().contains(key) <==> self@.records.dom().contains(
                            key,
                        ) by {
                            first_goes(current.order, key);
                        }
                    }
                }
            }
        }
        proof {
            self@.order.unique_seq_to_set();
            if joined.order.len() > before.max_records {
                joined.order.unique_seq_to_set();
                assert(self@.order =~= before.remembering(id, record).order);
                assert(self@.records =~= before.remembering(id, record).records);
            }
            assert(self@ == before.remembering(id, record));
        }
    }

    /// Notes that a leader acknowledged a remembered batch after all. Returns whether the batch is
    /// still remembered.
    pub fn acknowledge(&mut self, batch_id: &str, leader_id: String) -> (remembered: bool)
        requires
            old(self)@.well_formed(),
        ensures
            final(self)@.well_formed(),
            remembered == old(self)@.records.dom().contains(batch_id@),
            !remembered ==> final(self)@ == old(self)@,
            remembered ==> {
                let before = old(self)@.records[batch_id@];
                let after = final(self)@.records[batch_id@];
                &&& final(self)@.order == old(self)@.order
                &&& final(self)@.max_records == old(self)@.max_records
                &&& final(self)@.records == old(self)@.records.insert(batch_id@, after)
                &&& after.targeted_leaders@ == before.targeted_leaders@
                &&& crate::text::texts(after.acknowledged_leaders@) == acknowledging(
                    crate::text::texts(before.acknowledged_leaders@),
                    leader_id@,
                )
            },
    {
        let mut record = match self.records.get(batch_id) {
            None => return false,
            Some(record) => record.copy(),
        };
        let ghost before = self@;
        let ghost acknowledged = crate::text::texts(record.acknowledged_leaders@);
        if contains_text(&record.acknowledged_leaders, &leader_id) {
            proof {
                assert(acknowledging(acknowledged, leader_id@) == acknowledged);
            }
        } else {
            record.acknowledged_leaders.push(leader_id);
            proof {
                assert(crate::text::texts(record.acknowledged_leaders@) =~= acknowledged.push(
                    leader_id@,
                ));
            }
        }
        self.records.insert(batch_id.to_string(), record);
        proof {
            assert(self@.order =~= before.order);
            assert(self@.records.dom() =~= before.records.dom());
            assert(self@.records =~= before.records.insert(batch_id@, record));
        }
        true
    }
}

/// Acknowledged leaders with one more, who is listed once.
pub open spec fn acknowledging(leaders: Seq<Seq<char>>, leader_id: Seq<char>) -> Seq<Seq<char>> {
    if leaders.contains(leader_id) {
        leaders
    } else {
        leaders.push(leader_id)
    }
}

/// Returns whether a text is in a list.
pub fn contains_text(items: &Vec<String>, item: &String) -> (found: bool)
    ensures
        found == crate::text::texts(items@).contains(item@),
{
    let mut i: usize = 0;
    while i < items.len()
        invariant
            i <= items.len(),
            forall|j: int| 0 <= j < i ==> #[trigger] crate::text::texts(items@)[j] != item@,
        decreases items.len() - i,
    {
        if items[i] == *item {
            proof {
                assert(crate::text::texts(items@)[i as int] == item@);
            }
            return true;
        }
        i += 1;
    }
    false
}

/// Dropping the first of distinct items removes exactly it.
proof fn first_goes(order: Seq<Seq<char>>, key: Seq<char>)
    requires
        order.len() > 0,
        order.no_duplicates(),
    ensures
        order.drop_first().to_set().contains(key) <==> order.to_set().contains(key) && key
            != order[0],
{
    let rest = order.drop_first();
    if order.contains(key) && key != order[0] {
        let at = choose|at: int| 0 <= at < order.len() && order[at] == key;
        assert(rest[at - 1] == key);
    }
    if rest.contains(key) {
        let at = choose|at: int| 0 <= at < rest.len() && rest[at] == key;
        assert(order[at + 1] == key);
    }
}

/// A batch that was just remembered is found again, and no more batches are held than fit.
pub proof fn remembered_batch_is_found(
    batches: TrackedView,
    batch_id: Seq<char>,
    record: BatchRecord,
)
    requires
        batches.well_formed(),
    ensures
        ({
            let after = batches.remembering(batch_id, record);
            &&& after.records.dom().contains(batch_id)
            &&& after.records[batch_id] == record
            &&& after.order.len() <= after.max_records
        }),
{
    if !batches.records.dom().contains(batch_id) && batches.order.len() == batches.max_records {
        assert(batches.order.contains(batches.order[0]));
        assert(batches.order.to_set().contains(batches.order[0]));
    }
}

/// Remembering a batch forgets at most one other, and then the one that was remembered first.
pub proof fn only_the_oldest_is_forgotten(
    batches: TrackedView,
    batch_id: Seq<char>,
    record: BatchRecord,
    other: Seq<char>,
)
    requires
        batches.well_formed(),
        batches.records.dom().contains(other),
        other != batch_id,
        other != batches.order[0],
    ensures
        ({
            let after = batches.remembering(batch_id, record);
            &&& after.records.dom().contains(other)
            &&& after.records[other] == batches.records[other]
        }),
{
}


/// While there is room, or for a batch that is already known, remembering forgets nothing. A known
/// batch keeps its place in the order, and a new one comes last.
pub proof fn nothing_is_forgotten_while_there_is_room(
    batches: TrackedView,
    batch_id: Seq<char>,
    record: BatchRecord,
    other: Seq<char>,
)
    requires
        batches.well_formed(),
        batches.records.dom().contains(other),
        other != batch_id,
        batches.order.len() < batches.max_records || batches.records.dom().contains(batch_id),
    ensures
        ({
            let after = batches.remembering(batch_id, record);
            &&& after.records.dom().contains(other)
            &&& after.records[other] == batches.records[other]
            &&& after.max_records == batches.max_records
            &&& batches.records.dom().contains(batch_id) ==> after.order == batches.order
            &&& !batches.records.dom().contains(batch_id) ==> after.order == batches.order.push(
                batch_id,
            )
        }),
{
}

/// Without room a new batch takes the place of the oldest: that one is forgotten, the others move
/// up, and the new one comes last.
pub proof fn oldest_makes_room(batches: TrackedView, batch_id: Seq<char>, record: BatchRecord)
    requires
        batches.well_formed(),
        batches.order.len() == batches.max_records,
        !batches.records.dom().contains(batch_id),
    ensures
        ({
            let after = batches.remembering(batch_id, record);
            &&& !after.records.dom().contains(batches.order[0])
            &&& after.order.len() == batches.order.len()
            &&& after.order.last() == batch_id
            &&& forall|i: int|
                0 <= i < batches.order.len() - 1 ==> #[trigger] after.order[i] == batches.order[i
                    + 1]
            &&& after.max_records == batches.max_records
        }),
{
    assert(batches.order.to_set().contains(batches.order[0]));
}

/// Acknowledging lists a leader once and behind those who acknowledged before.
pub proof fn acknowledging_lists_once(leaders: Seq<Seq<char>>, leader_id: Seq<char>)
    ensures
        acknowledging(leaders, leader_id).contains(leader_id),
        leaders.is_prefix_of(acknowledging(leaders, leader_id)),
        leaders.no_duplicates() ==> acknowledging(leaders, leader_id).no_duplicates(),
        acknowledging(acknowledging(leaders, leader_id), leader_id) == acknowledging(
            leaders,
            leader_id,
        ),
        forall|other: Seq<char>| #[trigger]
            acknowledging(leaders, leader_id).contains(other) ==> other == leader_id
                || leaders.contains(other),
{
    let after = acknowledging(leaders, leader_id);
    if !leaders.contains(leader_id) {
        assert(after[leaders.len() as int] == leader_id);
        assert forall|other: Seq<char>| #[trigger] after.contains(other) implies other == leader_id
            || leaders.contains(other) by {
            let at = choose|at: int| 0 <= at < after.len() && after[at] == other;
            if at < leaders.len() {
                assert(leaders[at] == other);
            }
        }
    }
}

/// What is remembered is found: after a batch was remembered its record comes back, and after a
/// leader acknowledged it that leader is listed.
pub proof fn remembered_batches_come_back(
    remembering: &mut TrackedBatches,
    acknowledging_later: &mut TrackedBatches,
    batch_id: String,
    id: &str,
    record: BatchRecord,
    leader_id: String,
    remembered: bool,
    found: Option<&BatchRecord>,
    found_later: Option<&BatchRecord>,
)
    requires
        old(remembering)@.well_formed(),
        id@ == batch_id@,
        call_ensures(TrackedBatches::remember, (remembering, batch_id, record), ()),
        call_ensures(TrackedBatches::get, (final(remembering), id), found),
        old(acknowledging_later)@ == final(remembering)@,
        call_ensures(TrackedBatches::acknowledge, (acknowledging_later, id, leader_id), remembered),
        call_ensures(TrackedBatches::get, (final(acknowledging_later), id), found_later),
    ensures
        found matches Some(back) && *back == record,
        remembered,
        found_later matches Some(back) && crate::text::texts(back.acknowledged_leaders@).contains(
            leader_id@,
        ) && back.targeted_leaders@ == record.targeted_leaders@,
        final(acknowledging_later)@.order.len() <= final(acknowledging_later)@.max_records,
{
    remembered_batch_is_found(old(remembering)@, batch_id@, record);
    acknowledging_lists_once(crate::text::texts(record.acknowledged_leaders@), leader_id@);
}

/// What a call of [`TrackedBatches::remember`] forgets: nothing while there is room or the batch is
/// known, and otherwise just the batch that was remembered first.
pub proof fn remembering_forgets_the_oldest(
    batches: &mut TrackedBatches,
    batch_id: String,
    record: BatchRecord,
    other: Seq<char>,
)
    requires
        old(batches)@.well_formed(),
        call_ensures(TrackedBatches::remember, (batches, batch_id, record), ()),
        other != batch_id@,
    ensures
        ({
            let full = old(batches)@.order.len() == old(batches)@.max_records
                && !old(batches)@.records.dom().contains(batch_id@);
            &&& final(batches)@.records.dom().contains(batch_id@)
            &&& final(batches)@.records[batch_id@] == record
            &&& final(batches)@.max_records == old(batches)@.max_records
            &&& final(batches)@.records.dom().contains(other) <==> {
                &&& old(batches)@.records.dom().contains(other)
                &&& full ==> other != old(batches)@.order[0]
            }
            &&& final(batches)@.records.dom().contains(other) ==> final(batches)@.records[other]
                == old(batches)@.records[other]
            &&& !old(batches)@.records.dom().contains(batch_id@) ==> final(batches)@.order.last()
                == batch_id@
            &&& old(batches)@.records.dom().contains(batch_id@) ==> final(batches)@.order
                == old(batches)@.order
        }),
{
    let before = old(batches)@;
    remembered_batch_is_found(before, batch_id@, record);
    if before.order.len() == before.max_records && !before.records.dom().contains(batch_id@) {
        oldest_makes_room(before, batch_id@, record);
    }
}

} // verus!
