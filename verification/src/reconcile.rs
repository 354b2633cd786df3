//! Reconciling a record into the table of nodes.
//!
//! The table holds at most one row for an identity. A record for an identity
//! that has no row is inserted. A record for an identity that has one takes
//! the place of that row, whole, if its `last_updated` is strictly greater
//! than the stored one; otherwise the table stays as it is.

use vstd::prelude::*;
use crate::record::{NodeRecord, NodeRecordView};

verus! {

/// What reconciling a record did to the table.
#[derive(Clone, Copy, Debug, PartialEq, Eq, Structural)]
pub enum Outcome {
    /// The record was inserted, or it replaced the stored row.
    Applied,
    /// The stored row is at least as fresh: nothing was written.
    SkippedStale,
}

/// Why the durable table could not take a record.
#[derive(Clone, Copy, Debug, PartialEq, Eq, Structural)]
pub enum StoreError {
    /// The table could not be reached.
    Connectivity,
    /// The table refused the row.
    Constraint,
}

/// Whether `table` takes `record`: it has no row for the identity, or a
/// strictly older one.
pub open spec fn accepts(table: Map<Seq<char>, NodeRecordView>, record: NodeRecordView) -> bool {
    table.contains_key(record.identity) ==> table[record.identity].last_updated
        < record.last_updated
}

/// The table after `record` was reconciled into it.
pub open spec fn reconciled(
    table: Map<Seq<char>, NodeRecordView>,
    record: NodeRecordView,
) -> Map<Seq<char>, NodeRecordView> {
    if accepts(table, record) {
        table.insert(record.identity, record)
    } else {
        table
    }
}

/// What reconciling `record` into `table` reports.
pub open spec fn outcome_of(table: Map<Seq<char>, NodeRecordView>, record: NodeRecordView) -> Outcome {
    if accepts(table, record) {
        Outcome::Applied
    } else {
        Outcome::SkippedStale
    }
}

/// What the durable table did with a record, told from the number of rows
/// that its one conditional write changed: none where the stored row was at
/// least as fresh.
pub fn outcome_of_rows(rows_affected: u64) -> (outcome: Outcome)
    ensures
        outcome == if rows_affected == 0 {
            Outcome::SkippedStale
        } else {
            Outcome::Applied
        },
{
    if rows_affected == 0 {
        Outcome::SkippedStale
    } else {
        Outcome::Applied
    }
}

/// The table after the records of `records` were reconciled into it, first to last.
pub open spec fn reconciled_all(
    table: Map<Seq<char>, NodeRecordView>,
    records: Seq<NodeRecordView>,
) -> Map<Seq<char>, NodeRecordView>
    decreases records.len(),
{
    if records.len() == 0 {
        table
    } else {
        reconciled(reconciled_all(table, records.drop_last()), records.last())
    }
}

/// Whether every record of `records` is for `identity`.
pub open spec fn all_for(records: Seq<NodeRecordView>, identity: Seq<char>) -> bool {
    forall|i: int| 0 <= i < records.len() ==> (#[trigger] records[i]).identity == identity
}

/// Whether `rows` has a row for `identity`.
spec fn has_row(rows: Seq<NodeRecord>, identity: Seq<char>) -> bool {
    exists|i: int| 0 <= i < rows.len() && (#[trigger] rows[i]).identity@ == identity
}

/// The place of a row for `identity` in `rows`.
spec fn row_index(rows: Seq<NodeRecord>, identity: Seq<char>) -> int {
    choose|i: int| 0 <= i < rows.len() && (#[trigger] rows[i]).identity@ == identity
}

/// A table of nodes in memory, keyed by identity.
pub struct NodeTable {
    rows: Vec<NodeRecord>,
}

impl View for NodeTable {
    type V = Map<Seq<char>, NodeRecordView>;

    /// The rows by identity.
    closed spec fn view(&self) -> Map<Seq<char>, NodeRecordView> {
        Map::new(
            |identity: Seq<char>| has_row(self.rows@, identity),
            |identity: Seq<char>| self.rows@[row_index(self.rows@, identity)]@,
        )
    }
}

impl NodeTable {
    /// The table holds no two rows for one identity.
    pub closed spec fn wf(&self) -> bool {
        forall|i: int, j: int|
            0 <= i < j < self.rows@.len() ==> (#[trigger] self.rows@[i]).identity@
                != (#[trigger] self.rows@[j]).identity@
    }

    /// A table without rows.
    pub fn new() -> (table: NodeTable)
        ensures
            table.wf(),
            table@ == Map::<Seq<char>, NodeRecordView>::empty(),
    {
        let table = NodeTable { rows: Vec::new() };
        assert(table@ =~= Map::<Seq<char>, NodeRecordView>::empty());
        table
    }

    /// Where the row for `identity` is, if there is one.
    fn find(&self, identity: &String) -> (found: Option<usize>)
        requires
            self.wf(),
        ensures
            match found {
                Some(i) => i < self.rows@.len() && self.rows@[i as int].identity@ == identity@
                    && has_row(self.rows@, identity@) && row_index(self.rows@, identity@) == i,
                None => !has_row(self.rows@, identity@),
            },
    {
        let mut i: usize = 0;
        while i < self.rows.len()
            invariant
                self.wf(),
                i <= self.rows@.len(),
                forall|j: int| 0 <= j < i ==> (#[trigger] self.rows@[j]).identity@ != identity@,
            decreases self.rows@.len() - i,
        {
            if self.rows[i].identity == *identity {
                proof {
                    let at = row_index(self.rows@, identity@);
                    assert(self.rows@[i as int].identity@ == identity@);
                    assert(self.rows@[at].identity@ == identity@);
                }
                return Some(i);
            }
            i += 1;
        }
        None
    }

    /// The row for `identity`, if the table has one.
    pub fn get(&self, identity: &str) -> (row: Option<&NodeRecord>)
        requires
            self.wf(),
        ensures
            match row {
                Some(r) => self@.contains_key(identity@) && r@ == self@[identity@],
                None => !self@.contains_key(identity@),
            },
    {
        let key = identity.to_owned();
        match self.find(&key) {
            Some(i) => Some(&self.rows[i]),
            None => None,
        }
    }

    /// Reconciles `record` into the table: inserts it where its identity has
    /// no row, puts it in the place of a strictly older row, and leaves the
    /// table as it is where the stored row is at least as fresh. The table in
    /// memory takes every record: it never answers with an error.
    pub fn reconcile(&mut self, record: NodeRecord) -> (reply: Result<Outcome, StoreError>)
        requires
            old(self).wf(),
        ensures
            final(self).wf(),
            final(self)@ == reconciled(old(self)@, record@),
            reply == Ok::<Outcome, StoreError>(outcome_of(old(self)@, record@)),
    {
        let ghost before = self.rows@;
        match self.find(&record.identity) {
            None => {
                self.rows.push(record);
                assert(self.rows@[before.len() as int] == record);
                assert forall|identity: Seq<char>| has_row(self.rows@, identity) implies (
                has_row(before, identity) && row_index(self.rows@, identity) == row_index(
                    before,
                    identity,
                )) || (identity == record.identity@ && row_index(self.rows@, identity)
                    == before.len()) by {
                    let i = row_index(self.rows@, identity);
                    if i < before.len() {
                        assert(before[i] == self.rows@[i]);
                        let j = row_index(before, identity);
                        assert(self.rows@[j] == before[j]);
                    }
                }
                assert forall|identity: Seq<char>| has_row(before, identity) implies has_row(
                    self.rows@,
                    identity,
                ) by {
                    let j = row_index(before, identity);
                    assert(self.rows@[j] == before[j]);
                }
                assert(self@ =~= reconciled(old(self)@, record@));
                Ok(Outcome::Applied)
            },
            Some(i) => {
                if self.rows[i].last_updated < record.last_updated {
                    self.rows.set(i, record);
                    assert forall|identity: Seq<char>| has_row(self.rows@, identity) implies has_row(
                        before,
                        identity,
                    ) && row_index(self.rows@, identity) == row_index(before, identity) by {
                        let a = row_index(self.rows@, identity);
                        assert(before[a].identity@ == self.rows@[a].identity@);
                        let b = row_index(before, identity);
                        assert(before[b].identity@ == self.rows@[b].identity@);
                    }
                    assert forall|identity: Seq<char>| has_row(before, identity) implies has_row(
                        self.rows@,
                        identity,
                    ) by {
                        let b = row_index(before, identity);
                        assert(before[b].identity@ == self.rows@[b].identity@);
                    }
                    assert(self@ =~= reconciled(old(self)@, record@));
                    Ok(Outcome::Applied)
                } else {
                    Ok(Outcome::SkippedStale)
                }
            },
        }
    }
}

/// Reconciling a record again right away changes nothing and reports
/// `SkippedStale`: a record with the stored `last_updated` does not overwrite.
/// The first time it reports `Applied` exactly if the table takes it.
pub proof fn lemma_reconcile_idempotent(table: Map<Seq<char>, NodeRecordView>, record: NodeRecordView)
    ensures
        outcome_of(table, record) == Outcome::Applied <==> accepts(table, record),
        outcome_of(reconciled(table, record), record) == Outcome::SkippedStale,
        reconciled(reconciled(table, record), record) == reconciled(table, record),
{
}

/// Reconciling never deletes a row, never touches the row of another
/// identity, and never lowers the `last_updated` of a row. A record that is
/// not fresher than the stored row changes no field of it.
pub proof fn lemma_reconcile_monotone(
    table: Map<Seq<char>, NodeRecordView>,
    record: NodeRecordView,
    identity: Seq<char>,
)
    requires
        table.contains_key(identity),
    ensures
        reconciled(table, record).contains_key(identity),
        table[identity].last_updated <= reconciled(table, record)[identity].last_updated,
        identity != record.identity ==> reconciled(table, record)[identity] == table[identity],
        record.last_updated <= table[identity].last_updated ==> reconciled(table, record)[identity]
            == table[identity],
{
}

/// After any records for one identity were reconciled in any order, the row
/// of that identity is the stored row or one of the records, whole: no field
/// of a record that was skipped is in it. Its `last_updated` is the greatest
/// of all of them. The rows of other identities are as before.
pub proof fn lemma_reconciled_all_row(
    table: Map<Seq<char>, NodeRecordView>,
    records: Seq<NodeRecordView>,
    identity: Seq<char>,
)
    requires
        all_for(records, identity),
    ensures
        forall|other: Seq<char>|
            other != identity ==> (reconciled_all(table, records).contains_key(other)
                <==> table.contains_key(other)),
        forall|other: Seq<char>|
            other != identity && table.contains_key(other) ==> reconciled_all(
                table,
                records,
            )[other] == table[other],
        reconciled_all(table, records).contains_key(identity) <==> (table.contains_key(identity)
            || records.len() > 0),
        reconciled_all(table, records).contains_key(identity) ==> (table.contains_key(identity)
            && reconciled_all(table, records)[identity] == table[identity]) || (exists|k: int|
            0 <= k < records.len() && reconciled_all(table, records)[identity] == records[k]),
        forall|i: int|
            0 <= i < records.len() ==> (#[trigger] records[i]).last_updated <= reconciled_all(
                table,
                records,
            )[identity].last_updated,
        table.contains_key(identity) ==> table[identity].last_updated <= reconciled_all(
            table,
            records,
        )[identity].last_updated,
    decreases records.len(),
{
    if records.len() > 0 {
        let earlier = records.drop_last();
        lemma_reconciled_all_row(table, earlier, identity);
        let before = reconciled_all(table, earlier);
        let after = reconciled_all(table, records);
        assert(records.last().identity == identity);
        assert(after == reconciled(before, records.last()));
        if before.contains_key(identity) && !(table.contains_key(identity) && before[identity]
            == table[identity]) {
            let k = choose|k: int| 0 <= k < earlier.len() && before[identity] == earlier[k];
            assert(before[identity] == records[k]);
        }
        assert forall|i: int| 0 <= i < records.len() implies (#[trigger] records[i]).last_updated
            <= after[identity].last_updated by {
            if i < earlier.len() {
                assert(earlier[i] == records[i]);
            }
        }
        if accepts(before, records.last()) {
            assert(after[identity] == records[records.len() - 1]);
        }
    }
}

/// Whether the record at place `k` of `records` was applied when the records
/// were reconciled into `table`, first to last.
pub open spec fn applied_at(
    table: Map<Seq<char>, NodeRecordView>,
    records: Seq<NodeRecordView>,
    k: int,
) -> bool {
    accepts(reconciled_all(table, records.take(k)), records[k])
}

/// Of records for one identity, the one that was applied last is the row in
/// the end, and none of them is fresher than it.
pub proof fn lemma_last_applied_is_stored(
    table: Map<Seq<char>, NodeRecordView>,
    records: Seq<NodeRecordView>,
    identity: Seq<char>,
    k: int,
)
    requires
        all_for(records, identity),
        0 <= k < records.len(),
        applied_at(table, records, k),
        forall|j: int| k < j < records.len() ==> !applied_at(table, records, j),
    ensures
        reconciled_all(table, records).contains_key(identity),
        reconciled_all(table, records)[identity] == records[k],
        forall|i: int|
            0 <= i < records.len() ==> (#[trigger] records[i]).last_updated
                <= records[k].last_updated,
    decreases records.len(),
{
    let earlier = records.drop_last();
    let last = records.len() - 1;
    assert(records.take(last) =~= earlier);
    assert(records[k].identity == identity);
    assert(records[last].identity == identity);
    if k < last {
        assert(!applied_at(table, records, last));
        assert(earlier[k] == records[k]);
        assert(earlier.take(k) =~= records.take(k));
        assert forall|j: int| k < j < earlier.len() implies !applied_at(table, earlier, j) by {
            assert(earlier.take(j) =~= records.take(j));
            assert(earlier[j] == records[j]);
            assert(!applied_at(table, records, j));
        }
        lemma_last_applied_is_stored(table, earlier, identity, k);
    }
    lemma_reconciled_all_row(table, records, identity);
}

/// Whatever the order, the record that is strictly fresher than the stored
/// row and than every other record for the identity is the row in the end.
pub proof fn lemma_freshest_wins(
    table: Map<Seq<char>, NodeRecordView>,
    records: Seq<NodeRecordView>,
    identity: Seq<char>,
    k: int,
)
    requires
        all_for(records, identity),
        0 <= k < records.len(),
        forall|i: int|
            0 <= i < records.len() && i != k ==> (#[trigger] records[i]).last_updated
                < records[k].last_updated,
        table.contains_key(identity) ==> table[identity].last_updated < records[k].last_updated,
    ensures
        reconciled_all(table, records).contains_key(identity),
        reconciled_all(table, records)[identity] == records[k],
    decreases records.len(),
{
    let earlier = records.drop_last();
    let before = reconciled_all(table, earlier);
    assert(records.last().identity == identity);
    assert(records[k].identity == identity);
    if k == records.len() - 1 {
        lemma_reconciled_all_row(table, earlier, identity);
        if before.contains_key(identity) && !(table.contains_key(identity) && before[identity]
            == table[identity]) {
            let j = choose|j: int| 0 <= j < earlier.len() && before[identity] == earlier[j];
            assert(earlier[j] == records[j]);
        }
    } else {
        assert(earlier[k] == records[k]);
        assert forall|i: int| 0 <= i < earlier.len() && i != k implies (#[trigger] earlier[i]).last_updated
            < earlier[k].last_updated by {
            assert(earlier[i] == records[i]);
        }
        lemma_freshest_wins(table, earlier, identity, k);
        assert(records[records.len() - 1].last_updated < records[k].last_updated);
    }
}

/// `first_seen` of a stored row stays as it is when a record is skipped, and
/// when a record that is applied carries the same `first_seen`. A record
/// that is applied puts its own `first_seen` in the row, as it does with
/// every other field.
pub proof fn lemma_first_seen_stable(table: Map<Seq<char>, NodeRecordView>, record: NodeRecordView)
    requires
        table.contains_key(record.identity),
        accepts(table, record) ==> record.first_seen == table[record.identity].first_seen,
    ensures
        reconciled(table, record)[record.identity].first_seen == table[record.identity].first_seen,
{
}

} // verus!
