use quandl_v3::batch_query::{BatchQuery, Iterator};
use quandl_v3::parameters::ApiParameters;
use quandl_v3::query::DatasetMetadataQuery;
use quandl_v3::worker::Action;
use std::sync::mpsc::channel;

fn batch_of(keys: &[Option<&str>]) -> Vec<DatasetMetadataQuery> {
    keys.iter()
        .enumerate()
        .map(|(position, key)| {
            let mut query = DatasetMetadataQuery::new("DB", &format!("set{}", position));
            if let Some(key) = key {
                query.api_key(key);
            }
            query
        })
        .collect()
}

/// Runs a batch with every worker driven to its end, one after the other,
/// and drains the merge. The fetch of a request yields its dataset code.
/// Returns the results and, for each worker, the seconds of each pause with
/// the number of fetches that the worker had made before it.
fn run_to_end(batch: BatchQuery<DatasetMetadataQuery>) -> (Vec<String>, Vec<Vec<(usize, u64)>>) {
    let dispatch = batch.run();
    let mut counters = dispatch.registry.counters();
    let mut receivers = vec![];
    let mut pauses = vec![];
    assert_eq!(dispatch.shards.len(), dispatch.workers.len());
    for (shard, mut worker) in dispatch.shards.into_iter().zip(dispatch.workers.into_iter()) {
        let (tx, rx) = channel::<String>();
        receivers.push(rx);
        let mut observed = None;
        let mut fetched = 0usize;
        let mut held: Option<usize> = None;
        let mut slept = vec![];
        loop {
            match worker.step(observed.take()) {
                Action::Acquire { slot } => {
                    assert_eq!(held, None);
                    held = Some(slot);
                    observed = Some(counters[slot].read());
                }
                Action::Pause { seconds } => slept.push((fetched, seconds)),
                Action::Count { slot } => {
                    assert_eq!(held, Some(slot));
                    counters[slot].increment();
                }
                Action::Fetch { position } => {
                    assert_eq!(position, fetched);
                    tx.send(shard[position].dataset_code.clone()).unwrap();
                    fetched += 1;
                }
                Action::Release { slot } => {
                    assert_eq!(held, Some(slot));
                    held = None;
                }
                Action::Close => break,
            }
        }
        assert_eq!(fetched, shard.len());
        pauses.push(slept);
    }
    let mut merged = Iterator::new(receivers);
    let mut results = vec![];
    while let Some(found) = merged.try_next() {
        results.push(found.expect("every worker is done"));
    }
    assert_eq!(merged.try_next(), None);
    (results, pauses)
}

fn expected(count: usize) -> Vec<String> {
    (0..count).map(|position| format!("set{}", position)).collect()
}

#[test]
fn every_result_comes_exactly_once() {
    for count in 0..9usize {
        for threads in 1..=count.max(1) {
            let keys = vec![Some("k"); count];
            let mut batch = BatchQuery::new();
            batch.queries(batch_of(&keys)).threads(threads);
            let (results, _) = run_to_end(batch);
            assert_eq!(results.len(), count);
            assert_eq!(results, expected(count));
        }
    }
}

#[test]
fn one_worker_keeps_the_order_of_submission() {
    let keys = [Some("a"), None, Some("b"), Some("a"), None];
    let mut batch = BatchQuery::new();
    batch.queries(batch_of(&keys)).threads(1);
    let (results, _) = run_to_end(batch);
    assert_eq!(results, expected(5));
}

#[test]
fn one_worker_for_each_request_yields_the_same_results() {
    let keys = [Some("a"), None, Some("b"), Some("a"), None, Some("c")];
    let mut batch = BatchQuery::new();
    batch.queries(batch_of(&keys)).threads(keys.len());
    let (mut results, _) = run_to_end(batch);
    results.sort();
    let mut wanted = expected(6);
    wanted.sort();
    assert_eq!(results, wanted);
}

#[test]
fn worker_count_does_not_change_the_results() {
    let keys = [Some("a"), Some("a"), None, Some("b"), Some("a"), None, Some("c")];
    let mut first = BatchQuery::new();
    first.queries(batch_of(&keys)).threads(1).offset(3).limit(2, 4);
    let (ordered, _) = run_to_end(first);
    let mut again = BatchQuery::new();
    again.queries(batch_of(&keys)).threads(1).offset(3).limit(2, 4);
    assert_eq!(run_to_end(again).0, ordered);
    for threads in 2..10usize {
        let mut other = BatchQuery::new();
        other.queries(batch_of(&keys)).threads(threads).offset(3).limit(2, 4);
        let (mut results, _) = run_to_end(other);
        let mut wanted = ordered.clone();
        results.sort();
        wanted.sort();
        assert_eq!(results, wanted);
    }
}

#[test]
fn more_workers_than_requests() {
    let keys = [Some("a"), Some("b")];
    let mut batch = BatchQuery::new();
    batch.queries(batch_of(&keys)).threads(7);
    let dispatch = batch.run();
    assert_eq!(dispatch.shards.len(), 2);
    assert_eq!(dispatch.workers.len(), 2);
    assert_eq!(dispatch.registry.len(), 2);
}

#[test]
fn four_requests_one_credential_cooldown_before_the_third() {
    let keys = [Some("k"); 4];
    let mut batch = BatchQuery::new();
    batch.queries(batch_of(&keys)).threads(1).limit(2, 5).offset(0);
    let (results, pauses) = run_to_end(batch);
    assert_eq!(results, expected(4));
    assert_eq!(pauses, vec![vec![(2usize, 5u64)]]);
    let slept: u64 = pauses[0].iter().map(|pause| pause.1).sum();
    assert!(slept >= 5);
}

#[test]
fn request_without_credential_is_never_throttled() {
    let keys = [None; 6];
    let mut batch = BatchQuery::new();
    batch.queries(batch_of(&keys)).threads(2).limit(1, 60).limit(2, 600).offset(10);
    let (results, pauses) = run_to_end(batch);
    assert_eq!(results, expected(6));
    assert_eq!(pauses, vec![vec![], vec![]]);
}

#[test]
fn credential_is_counted_across_workers() {
    // Both workers use the one credential; each call finds what both have
    // counted. The first worker runs to its end before the second starts.
    let keys = [Some("k"); 6];
    let mut batch = BatchQuery::new();
    batch.queries(batch_of(&keys)).threads(2).limit(3, 9);
    let (results, pauses) = run_to_end(batch);
    assert_eq!(results, expected(6));
    assert_eq!(pauses, vec![vec![], vec![(0usize, 9u64)]]);
}

#[test]
fn builder_adds_requests_in_order() {
    let mut batch = BatchQuery::new();
    batch
        .query(DatasetMetadataQuery::new("DB", "set0"))
        .queries(vec![
            DatasetMetadataQuery::new("DB", "set1"),
            DatasetMetadataQuery::new("DB", "set2"),
        ])
        .query(DatasetMetadataQuery::new("DB", "set3"))
        .threads(3)
        .concurrent_calls();
    let (results, _) = run_to_end(batch);
    assert_eq!(results, expected(4));
}

#[test]
fn default_worker_count_runs_every_request() {
    let keys = [Some("k"); 5];
    let mut batch = BatchQuery::new();
    batch.queries(batch_of(&keys));
    let (results, _) = run_to_end(batch);
    assert_eq!(results, expected(5));
    let mut again = BatchQuery::new();
    again.queries(batch_of(&keys));
    let shards = again.run().shards.len();
    assert!(1 <= shards && shards <= 5);
}

#[test]
fn tier_with_zero_threshold_is_held_and_never_waits() {
    let keys = [Some("k"); 5];
    let mut batch = BatchQuery::new();
    batch.queries(batch_of(&keys)).threads(1).limit(0, 30).limit(2, 4).limit(0, 60);
    let (results, pauses) = run_to_end(batch);
    assert_eq!(results, expected(5));
    assert_eq!(pauses, vec![vec![(2usize, 4u64), (4usize, 4u64)]]);
}
