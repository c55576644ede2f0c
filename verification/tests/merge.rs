use quandl_v3::batch_query::{Iterator, Progress};
use quandl_v3::merge::Polled;
use std::sync::mpsc::{channel, Receiver, Sender};

fn drain(merged: &mut Iterator<u32>) -> Vec<u32> {
    let mut seen = vec![];
    while let Some(found) = merged.try_next() {
        seen.push(found.expect("every producer is done"));
    }
    seen
}

fn channels(count: usize) -> (Vec<Sender<u32>>, Vec<Receiver<u32>>) {
    let mut senders = vec![];
    let mut receivers = vec![];
    for _ in 0..count {
        let (tx, rx) = channel::<u32>();
        senders.push(tx);
        receivers.push(rx);
    }
    (senders, receivers)
}

#[test]
fn fresh_iterator_with_open_channels_is_not_ready() {
    let (senders, receivers) = channels(2);
    let mut merged = Iterator::new(receivers);
    assert_eq!(merged.try_next(), Some(None));
    assert_eq!(merged.try_next(), Some(None));
    assert!(!merged.is_exhausted());
    senders[0].send(7).unwrap();
    assert_eq!(merged.try_next(), Some(Some(7)));
    assert_eq!(merged.position(), 1);
    drop(senders);
    assert_eq!(merged.try_next(), None);
    assert!(merged.is_exhausted());
}

#[test]
fn iterator_without_channels_is_exhausted() {
    let mut merged = Iterator::<u32>::new(vec![]);
    assert_eq!(merged.try_next(), None);
    assert_eq!(merged.try_next(), None);
    assert!(merged.is_exhausted());
}

#[test]
fn cursor_waits_on_its_channel_though_another_is_ready() {
    let (senders, receivers) = channels(2);
    let mut merged = Iterator::new(receivers);
    senders[1].send(1).unwrap();
    assert_eq!(merged.try_next(), Some(None));
    assert_eq!(merged.position(), 0);
    senders[0].send(0).unwrap();
    assert_eq!(merged.try_next(), Some(Some(0)));
    assert_eq!(merged.try_next(), Some(Some(1)));
    assert_eq!(merged.position(), 0);
}

#[test]
fn results_come_in_rotation() {
    let (senders, receivers) = channels(3);
    for round in 0..2u32 {
        for (shard, sender) in senders.iter().enumerate() {
            sender.send(round * 3 + shard as u32).unwrap();
        }
    }
    senders[0].send(6).unwrap();
    drop(senders);
    let mut merged = Iterator::new(receivers);
    assert_eq!(drain(&mut merged), vec![0, 1, 2, 3, 4, 5, 6]);
    assert!(merged.is_exhausted());
}

#[test]
fn closed_channel_takes_the_channels_behind_it_along() {
    let (mut senders, receivers) = channels(3);
    let mut merged = Iterator::new(receivers);
    senders[0].send(10).unwrap();
    senders[2].send(30).unwrap();
    assert_eq!(merged.try_next(), Some(Some(10)));
    // The second channel closes with nothing in it: the third goes with it,
    // and what it held is never seen.
    let last = senders.pop().unwrap();
    let second = senders.pop().unwrap();
    drop(second);
    assert_eq!(merged.try_next(), Some(None));
    assert_eq!(merged.position(), 0);
    assert!(!merged.is_exhausted());
    drop(last);
    senders[0].send(11).unwrap();
    assert_eq!(merged.try_next(), Some(Some(11)));
    assert_eq!(merged.position(), 0);
    drop(senders);
    assert_eq!(merged.try_next(), None);
}

#[test]
fn advance_follows_what_was_found() {
    let (_senders, receivers) = channels(3);
    let mut merged = Iterator::new(receivers);
    assert!(matches!(merged.advance(Polled::Empty), Progress::NotReady));
    assert_eq!(merged.position(), 0);
    assert!(matches!(merged.advance(Polled::Ready(4)), Progress::Item(4)));
    assert_eq!(merged.position(), 1);
    assert!(matches!(merged.advance(Polled::Ready(5)), Progress::Item(5)));
    assert!(matches!(merged.advance(Polled::Ready(6)), Progress::Item(6)));
    assert_eq!(merged.position(), 0);
    assert!(matches!(merged.advance(Polled::Ready(7)), Progress::Item(7)));
    assert!(matches!(merged.advance(Polled::Disconnected), Progress::Retry));
    assert_eq!(merged.position(), 0);
    assert!(!merged.is_exhausted());
    assert!(matches!(merged.advance(Polled::Disconnected), Progress::Exhausted));
    assert!(merged.is_exhausted());
    assert!(matches!(merged.advance(Polled::Ready(8)), Progress::Exhausted));
}

#[test]
fn polling_drains_what_was_sent() {
    let (mut senders, receivers) = channels(2);
    let mut merged = Iterator::new(receivers);
    let second = senders.pop().unwrap();
    let first = senders.pop().unwrap();
    second.send(2).unwrap();
    first.send(1).unwrap();
    first.send(3).unwrap();
    drop(first);
    drop(second);
    assert_eq!(drain(&mut merged), vec![1, 2, 3]);
    assert!(merged.is_exhausted());
}
