use node_connectivity::errors::ReconcileError;
use node_connectivity::node::NodeConnectivity;
use node_connectivity::reconcile::{
    newest_update, Reconciliation, WriteOutcome, NODES_CONNECTIVITY_API, NODE_TABLE,
};

fn node(key: &str, updated_at: i64) -> NodeConnectivity {
    NodeConnectivity::new(key.to_owned(), key.to_uppercase(), 1_000, 0, updated_at)
}

#[test]
fn names_of_table_and_source() {
    assert_eq!(NODE_TABLE, "ln_node_connectivity");
    assert_eq!(
        NODES_CONNECTIVITY_API,
        "https://mempool.space/api/v1/lightning/nodes/rankings/connectivity"
    );
}

#[test]
fn empty_list_is_refused() {
    assert!(matches!(Reconciliation::begin(Vec::new()), Err(ReconcileError::EmptyResult)));
}

#[test]
fn refresh_starts_with_the_first_node() {
    let refresh = Reconciliation::begin(vec![node("a", 1), node("b", 2)]).ok().unwrap();
    assert_eq!(refresh.written_count(), 0);
    assert_eq!(refresh.next_write(), Some(&node("a", 1)));
}

#[test]
fn nodes_are_written_in_the_order_of_the_list() {
    let list = vec![node("c", 1), node("a", 2), node("b", 3)];
    let mut refresh = Reconciliation::begin(list.clone()).ok().unwrap();
    let mut written = Vec::new();
    let verdict = loop {
        let next = refresh.next_write().unwrap().clone();
        written.push(next);
        if let Some(verdict) = refresh.settle(WriteOutcome::Written) {
            break verdict;
        }
    };
    assert_eq!(verdict, Ok(()));
    assert_eq!(written, list);
    assert_eq!(refresh.written_count(), 3);
    assert_eq!(refresh.next_write(), None);
}

#[test]
fn one_write_for_each_fetched_node() {
    let list = vec![node("a", 1), node("a", 2), node("a", 3), node("b", 4)];
    let mut refresh = Reconciliation::begin(list).ok().unwrap();
    let mut writes = 0;
    while refresh.next_write().is_some() {
        writes += 1;
        let _ = refresh.settle(WriteOutcome::Written);
    }
    assert_eq!(writes, 4);
}

#[test]
fn refresh_goes_on_until_the_last_node_is_written() {
    let mut refresh = Reconciliation::begin(vec![node("a", 1), node("b", 2)]).ok().unwrap();
    assert_eq!(refresh.settle(WriteOutcome::Written), None);
    assert_eq!(refresh.next_write(), Some(&node("b", 2)));
    assert_eq!(refresh.settle(WriteOutcome::Written), Some(Ok(())));
}

#[test]
fn failed_write_fails_the_refresh() {
    let mut refresh = Reconciliation::begin(vec![node("a", 1), node("b", 2), node("c", 3)]).ok().unwrap();
    assert!(!refresh.has_failed());
    assert_eq!(refresh.settle(WriteOutcome::Written), None);
    let verdict = refresh.settle(WriteOutcome::Failed("disk full".to_owned()));
    assert_eq!(verdict, Some(Err(ReconcileError::Store("disk full".to_owned()))));
    assert!(refresh.has_failed());
    assert_eq!(refresh.written_count(), 1);
}

#[test]
fn nothing_is_written_after_a_failed_write() {
    let mut refresh = Reconciliation::begin(vec![node("a", 1), node("b", 2), node("c", 3)]).ok().unwrap();
    let _ = refresh.settle(WriteOutcome::Failed("disk full".to_owned()));
    assert_eq!(refresh.next_write(), None);
    assert_eq!(refresh.written_count(), 0);
}

#[test]
fn failed_refresh_stays_failed() {
    let mut refresh = Reconciliation::begin(vec![node("a", 1), node("b", 2)]).ok().unwrap();
    let _ = refresh.settle(WriteOutcome::Failed("disk full".to_owned()));
    let failed = Some(Err(ReconcileError::Store("disk full".to_owned())));
    assert_eq!(refresh.settle(WriteOutcome::Written), failed);
    assert_eq!(refresh.settle(WriteOutcome::Failed("again".to_owned())), failed);
    assert!(refresh.has_failed());
    assert_eq!(refresh.written_count(), 0);
    assert_eq!(refresh.next_write(), None);
}

#[test]
fn first_write_may_fail() {
    let mut refresh = Reconciliation::begin(vec![node("a", 1)]).ok().unwrap();
    let verdict = refresh.settle(WriteOutcome::Failed(String::new()));
    assert_eq!(verdict, Some(Err(ReconcileError::Store(String::new()))));
    assert_eq!(refresh.written_count(), 0);
}

#[test]
fn finished_refresh_stays_finished() {
    let mut refresh = Reconciliation::begin(vec![node("a", 1)]).ok().unwrap();
    assert_eq!(refresh.settle(WriteOutcome::Written), Some(Ok(())));
    assert_eq!(refresh.settle(WriteOutcome::Written), Some(Ok(())));
    assert_eq!(refresh.settle(WriteOutcome::Failed("late".to_owned())), Some(Ok(())));
    assert!(!refresh.has_failed());
    assert_eq!(refresh.written_count(), 1);
    assert_eq!(refresh.next_write(), None);
}

#[test]
fn newest_update_is_the_largest() {
    assert_eq!(newest_update(&vec![node("a", 5)]), 5);
    assert_eq!(newest_update(&vec![node("a", 5), node("b", 9), node("c", 7)]), 9);
    assert_eq!(newest_update(&vec![node("a", 9), node("b", 5)]), 9);
    assert_eq!(newest_update(&vec![node("a", -9), node("b", -5), node("c", -7)]), -5);
    assert_eq!(newest_update(&vec![node("a", i64::MIN), node("b", i64::MAX)]), i64::MAX);
    assert_eq!(newest_update(&vec![node("a", 3), node("b", 3)]), 3);
}

#[test]
fn refresh_knows_its_newest_update() {
    let refresh = Reconciliation::begin(vec![node("a", 1_700_000_000), node("b", 1_700_000_500)]).ok().unwrap();
    assert_eq!(refresh.newest_update(), 1_700_000_500);
}
