//! One cycle of the job against the table in memory.
//!
//! This is the cycle as a whole, with the table in the place of the durable
//! one: what a run of wake-up, fetch and stores comes to.

use vstd::prelude::*;
use crate::job::{
    hand_out, items_view, job_step, normalized_all, rest, Action, ActionView, Event, EventView,
    FetchError, IngestJob, JobView,
};
use crate::normalize::{RawNode, RawNodeView};
use crate::reconcile::{reconciled, reconciled_all, NodeTable};
use crate::record::NodeRecordView;
use crate::schedule::minute_of;

verus! {

/// The view of what a request for the listing gave.
pub open spec fn fetched_view(fetched: Result<Vec<RawNode>, FetchError>) -> Result<
    Seq<RawNodeView>,
    FetchError,
> {
    match fetched {
        Ok(items) => Ok(items_view(items@)),
        Err(e) => Err(e),
    }
}

/// Whether a job in state `job` starts a cycle when it is woken at `now`.
pub open spec fn starts_cycle(job: JobView, now: int) -> bool {
    job matches JobView::Idle { next_minute } && next_minute <= minute_of(now)
}

/// The table after a cycle: every record of the listing reconciled into it
/// in the order received, or the table as it was where the listing could
/// not be had.
pub open spec fn table_after_cycle(
    table: Map<Seq<char>, NodeRecordView>,
    fetched: Result<Seq<RawNodeView>, FetchError>,
) -> Map<Seq<char>, NodeRecordView> {
    match fetched {
        Ok(items) => reconciled_all(table, normalized_all(items)),
        Err(_) => table,
    }
}

/// Reconciling a record and then others comes to reconciling all of them,
/// that record first.
pub proof fn lemma_reconciled_all_from_first(
    table: Map<Seq<char>, NodeRecordView>,
    first: NodeRecordView,
    others: Seq<NodeRecordView>,
)
    ensures
        reconciled_all(table, seq![first] + others) == reconciled_all(
            reconciled(table, first),
            others,
        ),
    decreases others.len(),
{
    let all = seq![first] + others;
    if others.len() == 0 {
        assert(all.drop_last() =~= Seq::<NodeRecordView>::empty());
        assert(all.last() == first);
        assert(reconciled_all(table, all.drop_last()) == table);
    } else {
        assert(all.drop_last() =~= seq![first] + others.drop_last());
        assert(all.last() == others.last());
        lemma_reconciled_all_from_first(table, first, others.drop_last());
    }
}

/// Wakes `job` at `now` and, where a cycle is due, runs it to its end:
/// `fetched` is what the request for the listing gives, and each record that
/// the job hands out is reconciled into `table`.
///
/// A cycle leaves the table with every record of the listing reconciled in
/// the order received, and the job at rest until the first tick after `now`.
/// A listing that could not be had leaves the table as it was. Where no cycle
/// is due, the table stays as it was and the job takes the wake-up as `step`
/// says.
pub fn run_cycle(
    job: IngestJob,
    table: &mut NodeTable,
    now: i64,
    fetched: Result<Vec<RawNode>, FetchError>,
) -> (after: (IngestJob, Action))
    requires
        old(table).wf(),
    ensures
        final(table).wf(),
        starts_cycle(job@, now as int) ==> final(table)@ == table_after_cycle(
            old(table)@,
            fetched_view(fetched),
        ) && (after.0@, after.1@) == rest(now as int),
        !starts_cycle(job@, now as int) ==> final(table)@ == old(table)@ && (after.0@, after.1@)
            == job_step(job@, now as int, EventView::Woke),
{
    let ghost due = starts_cycle(job@, now as int);
    let ghost goal = table_after_cycle(table@, fetched_view(fetched));
    let (woken, first) = job.step(now, Event::Woke);
    match first {
        Action::Fetch => {},
        _ => {
            return (woken, first);
        },
    }
    assert(due);
    let ghost listing = normalized_all(
        match fetched_view(fetched) {
            Ok(items) => items,
            Err(_) => Seq::empty(),
        },
    );
    let (mut job, mut action) = woken.step(now, Event::Fetched(fetched));
    proof {
        if listing.len() > 0 {
            assert(seq![listing.first()] + listing.drop_first() =~= listing);
        }
    }
    loop
        invariant
            table.wf(),
            match action {
                Action::Store(record) => job@ matches JobView::Reconciling { remaining }
                    && reconciled_all(table@, seq![record@] + remaining) == goal,
                _ => table@ == goal && (job@, action@) == rest(now as int),
            },
        ensures
            table.wf(),
            table@ == goal,
            (job@, action@) == rest(now as int),
        decreases
            match job@ {
                JobView::Reconciling { remaining } => remaining.len() + 1,
                _ => 0,
            },
    {
        match action {
            Action::Store(record) => {
                proof {
                    let remaining = job@->remaining;
                    lemma_reconciled_all_from_first(table@, record@, remaining);
                    if remaining.len() > 0 {
                        assert(seq![remaining.first()] + remaining.drop_first() =~= remaining);
                    }
                }
                let reply = table.reconcile(record);
                let (next_job, next_action) = job.step(now, Event::Stored(reply));
                job = next_job;
                action = next_action;
            },
            _ => {
                break ;
            },
        }
    }
    (job, action)
}

} // verus!
