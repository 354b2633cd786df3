use node_ingest::cycle::run_cycle;
use node_ingest::job::{Action, Event, FetchError, IngestJob, Phase};
use node_ingest::normalize::{RawGeo, RawNode};
use node_ingest::reconcile::NodeTable;
use node_ingest::record::NodeRecord;

fn item(key: &str, updated_at: i64, capacity: i64) -> RawNode {
    RawNode {
        public_key: key.to_string(),
        alias: "alias".to_string(),
        channels: 4,
        capacity,
        first_seen: 50,
        updated_at,
        city: Some(RawGeo::Text("\"Berlin\"".to_string())),
        country: Some(RawGeo::Structured("{\"en\":\"Germany\"}".to_string())),
        iso_code: Some("DE".to_string()),
        subdivision: Some(RawGeo::Null),
    }
}

fn row(key: &str, last_updated: i64, capacity: i64) -> NodeRecord {
    NodeRecord {
        identity: key.to_string(),
        display_name: "alias".to_string(),
        channel_count: 4,
        capacity,
        first_seen: 50,
        last_updated,
        city: Some("\"Berlin\"".to_string()),
        country: Some("{\"en\":\"Germany\"}".to_string()),
        subdivision: None,
        iso_code: Some("DE".to_string()),
    }
}

fn stored(table: &NodeTable, key: &str) -> Option<NodeRecord> {
    table.get(key).cloned()
}

#[test]
fn cycle_creates_the_row() {
    let mut table = NodeTable::new();
    let (job, _) = IngestJob::start(10);
    let (job, action) = run_cycle(job, &mut table, 60, Ok(vec![item("A", 100, 5000)]));
    assert_eq!(job.phase(), Phase::Idle);
    assert_eq!(action, Action::Wait { seconds: 60 });
    assert_eq!(stored(&table, "A"), Some(row("A", 100, 5000)));
}

#[test]
fn cycle_with_equal_freshness_leaves_the_row() {
    let mut table = NodeTable::new();
    let (job, _) = IngestJob::start(10);
    let (job, _) = run_cycle(job, &mut table, 60, Ok(vec![item("A", 100, 5000)]));
    let (_, action) = run_cycle(job, &mut table, 125, Ok(vec![item("A", 100, 9999)]));
    assert_eq!(action, Action::Wait { seconds: 55 });
    assert_eq!(stored(&table, "A"), Some(row("A", 100, 5000)));
}

#[test]
fn cycle_with_fresher_record_updates_the_row() {
    let mut table = NodeTable::new();
    let (job, _) = IngestJob::start(10);
    let (job, _) = run_cycle(job, &mut table, 60, Ok(vec![item("A", 100, 5000)]));
    run_cycle(job, &mut table, 120, Ok(vec![item("A", 200, 9999)]));
    assert_eq!(stored(&table, "A"), Some(row("A", 200, 9999)));
}

#[test]
fn cycle_whose_fetch_failed_leaves_the_table() {
    let mut table = NodeTable::new();
    let (job, _) = IngestJob::start(10);
    let (job, _) = run_cycle(job, &mut table, 60, Ok(vec![item("A", 100, 5000)]));
    let (job, action) = run_cycle(job, &mut table, 120, Err(FetchError::Status(500)));
    assert_eq!(job.phase(), Phase::Idle);
    assert_eq!(action, Action::Wait { seconds: 60 });
    assert_eq!(stored(&table, "A"), Some(row("A", 100, 5000)));
    let (_, _) = run_cycle(job, &mut table, 180, Ok(vec![item("B", 1, 2)]));
    assert_eq!(stored(&table, "B"), Some(row("B", 1, 2)));
}

#[test]
fn cycle_before_the_tick_does_nothing() {
    let mut table = NodeTable::new();
    let (job, _) = IngestJob::start(10);
    let (job, action) = run_cycle(job, &mut table, 59, Ok(vec![item("A", 100, 5000)]));
    assert_eq!(job.phase(), Phase::Idle);
    assert_eq!(action, Action::Wait { seconds: 1 });
    assert_eq!(stored(&table, "A"), None);
}

#[test]
fn cycle_on_a_busy_job_does_nothing() {
    let mut table = NodeTable::new();
    let (job, _) = IngestJob::start(10);
    let (job, _) = job.step(60, Event::Woke);
    let (job, action) = run_cycle(job, &mut table, 120, Ok(vec![item("A", 100, 5000)]));
    assert_eq!(job.phase(), Phase::Fetching);
    assert_eq!(action, Action::Ignore);
    assert_eq!(stored(&table, "A"), None);
}

#[test]
fn cycle_reconciles_in_the_order_received() {
    let mut table = NodeTable::new();
    let (job, _) = IngestJob::start(10);
    let listing = vec![
        item("A", 5, 1),
        item("B", 9, 2),
        item("A", 5, 3),
        item("A", 7, 4),
        item("B", 8, 5),
        item("A", 6, 6),
    ];
    run_cycle(job, &mut table, 60, Ok(listing));
    assert_eq!(stored(&table, "A"), Some(row("A", 7, 4)));
    assert_eq!(stored(&table, "B"), Some(row("B", 9, 2)));
}

#[test]
fn repeated_cycle_changes_nothing() {
    let listing = || vec![item("A", 5, 1), item("B", 9, 2), item("C", 1, 3)];
    let mut table = NodeTable::new();
    let (job, _) = IngestJob::start(10);
    let (job, _) = run_cycle(job, &mut table, 60, Ok(listing()));
    let before = (stored(&table, "A"), stored(&table, "B"), stored(&table, "C"));
    run_cycle(job, &mut table, 120, Ok(listing()));
    assert_eq!((stored(&table, "A"), stored(&table, "B"), stored(&table, "C")), before);
}
