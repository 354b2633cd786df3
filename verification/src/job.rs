//! The recurring ingestion job.
//!
//! The job rests until a tick, asks for the listing, brings what came into
//! canonical form, and hands the records out to be stored, one at a time and
//! in the order received. It does none of the outside work itself: `step`
//! takes what happened and says what to do next. Whoever runs the job carries
//! out each `Action` once and reports back with the `Event` that belongs to it.
//!
//! A cycle runs from rest through fetching, normalizing and reconciling back
//! to rest. Normalizing needs no outside work, so the job is never seen in
//! it: it lies within the step that takes the listing.
//!
//! A cycle that is under way is never joined by a second one: a tick that
//! comes before the cycle has ended is ignored, and the next tick is taken
//! from the clock when the cycle ends.

use vstd::prelude::*;
use crate::normalize::{normalize, normalized, RawNode, RawNodeView};
use crate::reconcile::{Outcome, StoreError};
use crate::record::{NodeRecord, NodeRecordView};
use crate::schedule::{minute_index, minute_of, seconds_to_next_tick, wait_seconds};

verus! {

/// Why the listing could not be had.
#[derive(Clone, Copy, Debug, PartialEq, Eq, Structural)]
pub enum FetchError {
    /// The request did not get through.
    Network,
    /// The service answered with a status that is no success.
    Status(u16),
    /// The answer could not be decoded.
    Decode,
}

/// Whether the status of an answer is a success: the statuses from 200 to 299 are.
pub open spec fn is_success(status: u16) -> bool {
    200 <= status <= 299
}

/// Tells whether an answer with this status carries the listing: every
/// status that is no success is a fetch error.
pub fn check_status(status: u16) -> (checked: Result<(), FetchError>)
    ensures
        checked == if is_success(status) {
            Ok::<(), FetchError>(())
        } else {
            Err::<(), FetchError>(FetchError::Status(status))
        },
{
    if 200 <= status && status <= 299 {
        Ok(())
    } else {
        Err(FetchError::Status(status))
    }
}

/// What the job waits for.
#[derive(Clone, Copy, Debug, PartialEq, Eq, Structural)]
pub enum Phase {
    /// It rests until the next tick.
    Idle,
    /// It has asked for the listing.
    Fetching,
    /// It has handed out a record and waits to hear what became of it.
    Reconciling,
}

/// What happened outside.
#[derive(Debug)]
pub enum Event {
    /// The wait is over.
    Woke,
    /// The request for the listing has ended.
    Fetched(Result<Vec<RawNode>, FetchError>),
    /// The table has answered for the record that was handed out.
    Stored(Result<Outcome, StoreError>),
}

/// What is to be done outside.
#[derive(Clone, Debug, PartialEq, Eq)]
pub enum Action {
    /// Wait for this many seconds, then report `Event::Woke`.
    Wait { seconds: u64 },
    /// Ask for the listing, then report `Event::Fetched`.
    Fetch,
    /// Reconcile this record into the table, then report `Event::Stored`.
    Store(NodeRecord),
    /// The event did not belong to the phase: go on as before.
    Ignore,
}

/// The job's state: its phase and what the phase holds.
pub ghost enum JobView {
    /// Resting until the tick that starts minute `next_minute`.
    Idle { next_minute: int },
    Fetching,
    /// One record is handed out; `remaining` come after it, in this order.
    Reconciling { remaining: Seq<NodeRecordView> },
}

/// The view of an `Event`.
pub ghost enum EventView {
    Woke,
    Fetched(Result<Seq<RawNodeView>, FetchError>),
    Stored(Result<Outcome, StoreError>),
}

/// The view of an `Action`.
pub ghost enum ActionView {
    Wait { seconds: int },
    Fetch,
    Store(NodeRecordView),
    Ignore,
}

/// The views of the items of a listing.
pub open spec fn items_view(items: Seq<RawNode>) -> Seq<RawNodeView> {
    Seq::new(items.len(), |i: int| items[i]@)
}

impl View for Event {
    type V = EventView;

    open spec fn view(&self) -> EventView {
        match self {
            Event::Woke => EventView::Woke,
            Event::Fetched(Ok(items)) => EventView::Fetched(Ok(items_view(items@))),
            Event::Fetched(Err(e)) => EventView::Fetched(Err(*e)),
            Event::Stored(reply) => EventView::Stored(*reply),
        }
    }
}

impl View for Action {
    type V = ActionView;

    open spec fn view(&self) -> ActionView {
        match self {
            Action::Wait { seconds } => ActionView::Wait { seconds: *seconds as int },
            Action::Fetch => ActionView::Fetch,
            Action::Store(record) => ActionView::Store(record@),
            Action::Ignore => ActionView::Ignore,
        }
    }
}

/// The state and the action with which a cycle ends at `now`: rest until the
/// first tick after `now`.
pub open spec fn rest(now: int) -> (JobView, ActionView) {
    (
        JobView::Idle { next_minute: minute_of(now) + 1 },
        ActionView::Wait { seconds: seconds_to_next_tick(now) },
    )
}

/// The state and the action when `records` are still to be stored: the first
/// is handed out, or the cycle ends where there is none.
pub open spec fn hand_out(records: Seq<NodeRecordView>, now: int) -> (JobView, ActionView) {
    if records.len() == 0 {
        rest(now)
    } else {
        (
            JobView::Reconciling { remaining: records.drop_first() },
            ActionView::Store(records.first()),
        )
    }
}

/// The records that a listing stands for, item by item.
pub open spec fn normalized_all(items: Seq<RawNodeView>) -> Seq<NodeRecordView> {
    Seq::new(items.len(), |i: int| normalized(items[i]))
}

/// The step of the job: the state after `event` came at `now`, and what is to
/// be done next.
pub open spec fn job_step(job: JobView, now: int, event: EventView) -> (JobView, ActionView) {
    match (job, event) {
        (JobView::Idle { next_minute }, EventView::Woke) => {
            if next_minute <= minute_of(now) {
                (JobView::Fetching, ActionView::Fetch)
            } else {
                rest(now)
            }
        },
        (JobView::Fetching, EventView::Fetched(Ok(items))) => hand_out(normalized_all(items), now),
        (JobView::Fetching, EventView::Fetched(Err(_))) => rest(now),
        (JobView::Reconciling { remaining }, EventView::Stored(_)) => hand_out(remaining, now),
        _ => (job, ActionView::Ignore),
    }
}

/// A listing that could not be had ends the cycle: the job goes back to rest
/// and no record is handed out, whatever the error was.
pub proof fn lemma_failed_fetch_stores_nothing(now: int, error: FetchError)
    ensures
        job_step(JobView::Fetching, now, EventView::Fetched(Err(error))) == rest(now),
        rest(now).0 is Idle,
        rest(now).1 is Wait,
{
}

/// A record that the table could not take does not end the cycle: the job
/// goes on as it does after a record that was applied or skipped.
pub proof fn lemma_store_failure_goes_on(
    remaining: Seq<NodeRecordView>,
    now: int,
    error: StoreError,
    outcome: Outcome,
)
    ensures
        job_step(JobView::Reconciling { remaining }, now, EventView::Stored(Err(error)))
            == job_step(JobView::Reconciling { remaining }, now, EventView::Stored(Ok(outcome))),
        remaining.len() > 0 ==> job_step(
            JobView::Reconciling { remaining },
            now,
            EventView::Stored(Err(error)),
        ).1 == ActionView::Store(remaining[0]),
{
}

/// A wake-up while a cycle is under way starts no second cycle: the job
/// stays as it is.
pub proof fn lemma_tick_in_cycle_ignored(job: JobView, now: int)
    requires
        !(job is Idle),
    ensures
        job_step(job, now, EventView::Woke) == (job, ActionView::Ignore),
{
}

/// Whenever the job goes to rest, it waits for a minute boundary that is at
/// most a minute away, and the tick it waits for is that boundary.
pub proof fn lemma_rest_until_boundary(now: int)
    ensures
        rest(now).0 matches JobView::Idle { next_minute } && rest(now).1 matches ActionView::Wait {
            seconds,
        } && 1 <= seconds <= 60 && now + seconds == 60 * next_minute,
{
}

/// What the job holds in each phase. The records that are still to be handed
/// out are kept last first, so that the next one is taken from the end.
enum State {
    Idle { next_minute: i64 },
    Fetching,
    Reconciling { pending: Vec<NodeRecord> },
}

/// The ingestion job.
pub struct IngestJob {
    state: State,
}

/// The records of `pending`, which holds them last first, in their order.
spec fn in_order(pending: Seq<NodeRecord>) -> Seq<NodeRecordView> {
    Seq::new(pending.len(), |i: int| pending[pending.len() - 1 - i]@)
}

impl View for IngestJob {
    type V = JobView;

    closed spec fn view(&self) -> JobView {
        match self.state {
            State::Idle { next_minute } => JobView::Idle { next_minute: next_minute as int },
            State::Fetching => JobView::Fetching,
            State::Reconciling { pending } => JobView::Reconciling { remaining: in_order(pending@) },
        }
    }
}

/// Brings the items of a listing into canonical form. The records come out
/// last first.
fn normalize_all(items: Vec<RawNode>) -> (pending: Vec<NodeRecord>)
    ensures
        in_order(pending@) == normalized_all(items_view(items@)),
{
    let ghost listing = items@;
    let mut items = items;
    let mut pending: Vec<NodeRecord> = Vec::new();
    while items.len() > 0
        invariant
            items@.len() + pending@.len() == listing.len(),
            forall|i: int| 0 <= i < items@.len() ==> items@[i] == listing[i],
            forall|j: int|
                0 <= j < pending@.len() ==> (#[trigger] pending@[j])@ == normalized(
                    listing[listing.len() - 1 - j]@,
                ),
        decreases items@.len(),
    {
        let item = items.pop().unwrap();
        pending.push(normalize(item));
    }
    assert(in_order(pending@) =~= normalized_all(items_view(listing)));
    pending
}

impl IngestJob {
    /// A job that starts at `now`: it rests until the first tick after `now`.
    pub fn start(now: i64) -> (started: (IngestJob, Action))
        ensures
            (started.0@, started.1@) == rest(now as int),
    {
        IngestJob::rest_from(now)
    }

    /// The job at rest from `now` on, with the wait for the next tick.
    fn rest_from(now: i64) -> (rested: (IngestJob, Action))
        ensures
            (rested.0@, rested.1@) == rest(now as int),
    {
        let minute = minute_index(now);
        assert(minute < i64::MAX) by {
            assert(minute == (now as int) / 60);
        }
        (
            IngestJob { state: State::Idle { next_minute: minute + 1 } },
            Action::Wait { seconds: wait_seconds(now) },
        )
    }

    /// Hands out the next of `pending`, or ends the cycle where none is left.
    fn hand_out_next(pending: Vec<NodeRecord>, now: i64) -> (next: (IngestJob, Action))
        ensures
            (next.0@, next.1@) == hand_out(in_order(pending@), now as int),
    {
        let ghost before = pending@;
        let mut pending = pending;
        match pending.pop() {
            None => IngestJob::rest_from(now),
            Some(record) => {
                assert(in_order(before).first() == record@);
                assert(in_order(before).drop_first() =~= in_order(pending@));
                (IngestJob { state: State::Reconciling { pending } }, Action::Store(record))
            },
        }
    }

    /// What the job waits for.
    pub fn phase(&self) -> (phase: Phase)
        ensures
            phase == match self@ {
                JobView::Idle { .. } => Phase::Idle,
                JobView::Fetching => Phase::Fetching,
                JobView::Reconciling { .. } => Phase::Reconciling,
            },
    {
        match self.state {
            State::Idle { .. } => Phase::Idle,
            State::Fetching => Phase::Fetching,
            State::Reconciling { .. } => Phase::Reconciling,
        }
    }

    /// How many records of the cycle are still to be handed out.
    pub fn remaining(&self) -> (count: usize)
        ensures
            count == match self@ {
                JobView::Reconciling { remaining } => remaining.len(),
                _ => 0,
            },
    {
        match &self.state {
            State::Reconciling { pending } => pending.len(),
            _ => 0,
        }
    }

    /// Takes the event that came at `now`, in epoch seconds, and says what is
    /// to be done next.
    ///
    /// At rest, a wake-up on or after the tick starts a cycle; an earlier one
    /// leads back to waiting. A listing that could not be had ends the cycle
    /// with nothing stored. A listing that came is normalized, and its records
    /// are handed out one after the other, whatever the table answers for each.
    /// An event that does not belong to the phase changes nothing.
    pub fn step(self, now: i64, event: Event) -> (next: (IngestJob, Action))
        ensures
            (next.0@, next.1@) == job_step(self@, now as int, event@),
    {
        match (self.state, event) {
            (State::Idle { next_minute }, Event::Woke) => {
                if next_minute <= minute_index(now) {
                    (IngestJob { state: State::Fetching }, Action::Fetch)
                } else {
                    IngestJob::rest_from(now)
                }
            },
            (State::Fetching, Event::Fetched(Ok(items))) => {
                IngestJob::hand_out_next(normalize_all(items), now)
            },
            (State::Fetching, Event::Fetched(Err(_))) => IngestJob::rest_from(now),
            (State::Reconciling { pending }, Event::Stored(_)) => {
                IngestJob::hand_out_next(pending, now)
            },
            (state, _) => (IngestJob { state }, Action::Ignore),
        }
    }
}

} // verus!
