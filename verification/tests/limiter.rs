use quandl_v3::limiter::{should_wait, Tier};

#[test]
fn single_tier_waits_before_fourth_seventh_and_tenth_call() {
    let tiers = vec![Tier { threshold: 3, cooldown: 11 }];
    // The n-th call finds n - 1 calls made.
    let mut waited: Vec<usize> = vec![];
    for call in 1..=10usize {
        let pauses = should_wait(call - 1, &tiers);
        if !pauses.is_empty() {
            assert_eq!(pauses, vec![11]);
            waited.push(call);
        }
    }
    assert_eq!(waited, vec![4, 7, 10]);
}

#[test]
fn first_call_never_waits() {
    let tiers = vec![
        Tier { threshold: 1, cooldown: 1 },
        Tier { threshold: 2, cooldown: 2 },
    ];
    assert_eq!(should_wait(0, &tiers), Vec::<u64>::new());
}

#[test]
fn tiers_are_cumulative_and_in_order() {
    let tiers = vec![
        Tier { threshold: 300, cooldown: 10 },
        Tier { threshold: 2000, cooldown: 600 },
        Tier { threshold: 50000, cooldown: 86400 },
    ];
    assert_eq!(should_wait(300, &tiers), vec![10]);
    assert_eq!(should_wait(6000, &tiers), vec![10, 600]);
    assert_eq!(should_wait(300000, &tiers), vec![10, 600, 86400]);
    assert_eq!(should_wait(2000, &tiers), vec![600]);
    assert_eq!(should_wait(299, &tiers), Vec::<u64>::new());
}

#[test]
fn offset_shifts_the_calls_that_wait() {
    let tiers = vec![Tier { threshold: 3, cooldown: 7 }];
    // With two calls made before, the second call of the batch finds three.
    assert_eq!(should_wait(2, &tiers), Vec::<u64>::new());
    assert_eq!(should_wait(2 + 1, &tiers), vec![7]);
}

#[test]
fn no_tiers_no_wait() {
    assert_eq!(should_wait(12, &vec![]), Vec::<u64>::new());
}

#[test]
fn zero_threshold_never_fires() {
    let tiers = vec![
        Tier { threshold: 0, cooldown: 8 },
        Tier { threshold: 2, cooldown: 3 },
        Tier { threshold: 0, cooldown: 9 },
    ];
    assert_eq!(should_wait(0, &tiers), Vec::<u64>::new());
    assert_eq!(should_wait(1, &tiers), Vec::<u64>::new());
    assert_eq!(should_wait(4, &tiers), vec![3]);
    assert_eq!(should_wait(usize::MAX, &vec![Tier { threshold: 0, cooldown: 1 }]), Vec::<u64>::new());
}
