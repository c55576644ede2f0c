use quandl_v3::partition::partition;

#[test]
fn round_robin_by_position() {
    let dealt = partition(vec![0, 1, 2, 3, 4, 5, 6], 3);
    assert_eq!(dealt, vec![vec![0, 3, 6], vec![1, 4], vec![2, 5]]);
}

#[test]
fn four_items_three_workers() {
    let dealt = partition(vec!['a', 'b', 'c', 'd'], 3);
    assert_eq!(dealt, vec![vec!['a', 'd'], vec!['b'], vec!['c']]);
}

#[test]
fn one_worker_keeps_the_batch() {
    let dealt = partition(vec![5, 6, 7], 1);
    assert_eq!(dealt, vec![vec![5, 6, 7]]);
}

#[test]
fn zero_workers_stand_for_one() {
    let dealt = partition(vec![5, 6, 7], 0);
    assert_eq!(dealt, vec![vec![5, 6, 7]]);
}

#[test]
fn empty_shards_are_left_out() {
    let dealt = partition(vec![1, 2], 5);
    assert_eq!(dealt, vec![vec![1], vec![2]]);
}

#[test]
fn empty_batch_has_no_shard() {
    let dealt = partition(Vec::<u8>::new(), 4);
    assert_eq!(dealt, Vec::<Vec<u8>>::new());
}

#[test]
fn every_item_is_in_exactly_one_shard() {
    for workers in 0..9usize {
        let batch: Vec<usize> = (0..20).collect();
        let dealt = partition(batch.clone(), workers);
        let width = if workers == 0 { 1 } else { workers };
        let mut seen = vec![0usize; batch.len()];
        for (shard, items) in dealt.iter().enumerate() {
            for (place, item) in items.iter().enumerate() {
                assert_eq!(*item, shard + place * width);
                seen[*item] += 1;
            }
        }
        assert_eq!(seen, vec![1usize; batch.len()]);
    }
}
