use quandl_v3::limiter::Tier;
use quandl_v3::worker::{plan_admission, Action, Worker};

fn drive(worker: &mut Worker, counters: &mut Vec<usize>) -> Vec<Action> {
    let mut asked = vec![];
    let mut observed = None;
    loop {
        let action = worker.step(observed.take());
        asked.push(action);
        match action {
            Action::Acquire { slot } => observed = Some(counters[slot]),
            Action::Count { slot } => counters[slot] += 1,
            Action::Close => return asked,
            _ => {}
        }
    }
}

#[test]
fn four_calls_one_credential_tier_of_two() {
    let tiers = vec![Tier { threshold: 2, cooldown: 5 }];
    let mut worker = Worker::new(vec![Some(0); 4], tiers, false);
    let mut counters = vec![0usize];
    let asked = drive(&mut worker, &mut counters);
    let mut expected = vec![];
    for position in 0..4usize {
        expected.push(Action::Acquire { slot: 0 });
        if position == 2 {
            expected.push(Action::Pause { seconds: 5 });
        }
        expected.push(Action::Count { slot: 0 });
        expected.push(Action::Fetch { position });
        expected.push(Action::Release { slot: 0 });
    }
    expected.push(Action::Close);
    assert_eq!(asked, expected);
    assert_eq!(counters, vec![4]);
    let slept: u64 = asked
        .iter()
        .map(|action| match action {
            Action::Pause { seconds } => *seconds,
            _ => 0,
        })
        .sum();
    assert!(slept >= 5);
    assert_eq!(slept, 5);
}

#[test]
fn no_credential_never_pauses() {
    let tiers = vec![
        Tier { threshold: 1, cooldown: 9 },
        Tier { threshold: 2, cooldown: 99 },
    ];
    for concurrent in [false, true] {
        let mut worker = Worker::new(vec![None; 5], tiers.clone(), concurrent);
        let mut counters = vec![];
        let asked = drive(&mut worker, &mut counters);
        let mut expected: Vec<Action> =
            (0..5usize).map(|position| Action::Fetch { position }).collect();
        expected.push(Action::Close);
        assert_eq!(asked, expected);
    }
}

#[test]
fn concurrent_mode_releases_before_the_fetch() {
    let tiers = vec![Tier { threshold: 1, cooldown: 3 }];
    let mut worker = Worker::new(vec![Some(1), None, Some(1)], tiers, true);
    let mut counters = vec![0usize, 0];
    let asked = drive(&mut worker, &mut counters);
    assert_eq!(
        asked,
        vec![
            Action::Acquire { slot: 1 },
            Action::Count { slot: 1 },
            Action::Release { slot: 1 },
            Action::Fetch { position: 0 },
            Action::Fetch { position: 1 },
            Action::Acquire { slot: 1 },
            Action::Pause { seconds: 3 },
            Action::Count { slot: 1 },
            Action::Release { slot: 1 },
            Action::Fetch { position: 2 },
            Action::Close,
        ]
    );
    assert_eq!(counters, vec![0, 2]);
}

#[test]
fn worker_asks_again_until_the_counter_is_handed_over() {
    let mut worker = Worker::new(vec![Some(0)], vec![], false);
    assert_eq!(worker.step(None), Action::Acquire { slot: 0 });
    assert_eq!(worker.step(None), Action::Acquire { slot: 0 });
    assert_eq!(worker.step(Some(8)), Action::Count { slot: 0 });
    assert_eq!(worker.step(Some(8)), Action::Fetch { position: 0 });
    assert_eq!(worker.step(None), Action::Release { slot: 0 });
    assert_eq!(worker.step(None), Action::Close);
    assert_eq!(worker.step(Some(1)), Action::Close);
}

#[test]
fn empty_shard_closes_at_once() {
    let mut worker = Worker::new(vec![], vec![], false);
    assert_eq!(worker.step(None), Action::Close);
}

#[test]
fn admission_lists_every_cooldown_that_is_due() {
    let tiers = vec![
        Tier { threshold: 2, cooldown: 1 },
        Tier { threshold: 3, cooldown: 2 },
        Tier { threshold: 4, cooldown: 3 },
    ];
    assert_eq!(
        plan_admission(7, 9, 12, &tiers, false),
        vec![
            Action::Pause { seconds: 1 },
            Action::Pause { seconds: 2 },
            Action::Pause { seconds: 3 },
            Action::Count { slot: 7 },
            Action::Fetch { position: 9 },
            Action::Release { slot: 7 },
        ]
    );
    assert_eq!(
        plan_admission(7, 9, 9, &tiers, true),
        vec![
            Action::Pause { seconds: 2 },
            Action::Count { slot: 7 },
            Action::Release { slot: 7 },
            Action::Fetch { position: 9 },
        ]
    );
}
