//! The merge of the per-shard result channels into one sequence: the rule by
//! which the cursor moves, a model of the channels, and what the merge yields.

use vstd::prelude::*;
use vstd::arithmetic::div_mod::lemma_small_mod;
use crate::partition::{stride, shards, shard_count, effective_workers};

verus! {

/// What one attempt to receive from a channel found.
pub enum Polled<T> {
    /// An item was ready and has been taken.
    Ready(T),
    /// Nothing is ready, and the producer may still send.
    Empty,
    /// Nothing is ready, and the producer is gone.
    Disconnected,
}

/// The cursor and the number of open channels after an attempt on the channel
/// under the cursor. An item moves the cursor on by one, in rotation. A lost
/// producer closes the channel under the cursor and every channel behind it,
/// and sends the cursor back to the first. An empty channel changes nothing.
pub open spec fn cursor_after<T>(index: nat, open: nat, polled: Polled<T>) -> (nat, nat) {
    match polled {
        Polled::Ready(_) => (((index + 1) as int % open as int) as nat, open),
        Polled::Empty => (index, open),
        Polled::Disconnected => (0, index),
    }
}

/// The number of items in all queues together.
pub open spec fn pending<R>(queues: Seq<Seq<R>>) -> nat
    decreases queues.len(),
{
    if queues.len() == 0 {
        0
    } else {
        pending(queues.drop_last()) + queues.last().len()
    }
}

/// Replacing one queue changes the number of pending items by the difference
/// of the two lengths.
pub proof fn lemma_pending_update<R>(queues: Seq<Seq<R>>, at: int, queue: Seq<R>)
    requires
        0 <= at < queues.len(),
    ensures
        pending(queues.update(at, queue)) + queues[at].len() == pending(queues) + queue.len(),
    decreases queues.len(),
{
    let changed = queues.update(at, queue);
    if at == queues.len() - 1 {
        assert(changed.drop_last() =~= queues.drop_last());
    } else {
        lemma_pending_update(queues.drop_last(), at, queue);
        assert(changed.drop_last() =~= queues.drop_last().update(at, queue));
    }
}

/// What the merge yields from here on when every producer has finished: each
/// queue holds all that its producer had left to send, and is closed behind
/// its last item.
pub open spec fn drain<R>(queues: Seq<Seq<R>>, index: nat) -> Seq<R>
    decreases queues.len(), pending(queues),
    via drain_decreases::<R>
{
    if index >= queues.len() {
        Seq::empty()
    } else if queues[index as int].len() > 0 {
        seq![queues[index as int].first()] + drain(
            queues.update(index as int, queues[index as int].drop_first()),
            cursor_after(index, queues.len(), Polled::Ready(queues[index as int].first())).0,
        )
    } else {
        drain(queues.take(index as int), 0)
    }
}

#[via_fn]
proof fn drain_decreases<R>(queues: Seq<Seq<R>>, index: nat) {
    if index < queues.len() && queues[index as int].len() > 0 {
        lemma_pending_update(queues, index as int, queues[index as int].drop_first());
    }
}

/// The queues after `base + turn` items were taken in rotation from the
/// strides of width `width` over `items`: the strides before the cursor are
/// one item further than those from the cursor on.
pub open spec fn rotation<R>(items: Seq<R>, width: nat, base: nat, turn: nat) -> Seq<Seq<R>> {
    Seq::new(
        width,
        |j: int| stride(items, (base + j + if j < turn { width } else { 0 }) as nat, width),
    )
}

/// Draining a rotation yields the items not yet taken, in their order.
pub proof fn lemma_drain_rotation<R>(items: Seq<R>, width: nat, base: nat, turn: nat)
    requires
        width > 0,
        turn < width,
        base + turn <= items.len(),
    ensures
        drain(rotation(items, width, base, turn), turn) == items.skip((base + turn) as int),
    decreases items.len() - (base + turn),
{
    let queues = rotation(items, width, base, turn);
    let at = base + turn;
    if at >= items.len() {
        assert(queues[turn as int].len() == 0);
        let kept = queues.take(turn as int);
        if turn > 0 {
            assert(kept[0].len() == 0);
            assert(drain(kept.take(0), 0) =~= Seq::<R>::empty());
            assert(drain(kept, 0) =~= Seq::<R>::empty());
        } else {
            assert(drain(kept, 0) =~= Seq::<R>::empty());
        }
        assert(items.skip(at as int) =~= Seq::<R>::empty());
    } else {
        let head = items[at as int];
        assert(queues[turn as int] == seq![head] + stride(items, at + width, width));
        assert(queues[turn as int].first() == head);
        assert(queues[turn as int].drop_first() =~= stride(items, at + width, width));
        let moved = queues.update(turn as int, queues[turn as int].drop_first());
        let onward = cursor_after(turn, queues.len(), Polled::Ready(head)).0;
        if turn + 1 < width {
            lemma_small_mod(turn + 1, width);
            assert(onward == turn + 1);
            assert(moved =~= rotation(items, width, base, turn + 1));
            lemma_drain_rotation(items, width, base, turn + 1);
        } else {
            vstd::arithmetic::div_mod::lemma_mod_self_0(width as int);
            assert(onward == 0);
            assert(moved =~= rotation(items, width, base + width, 0));
            lemma_drain_rotation(items, width, base + width, 0);
        }
        assert(seq![head] + items.skip(at + 1 as int) =~= items.skip(at as int));
    }
}

/// A stride whose step is at least the length of the batch holds one item.
pub proof fn lemma_stride_single<R>(items: Seq<R>, start: nat, step: nat)
    requires
        start < items.len() <= step,
    ensures
        stride(items, start, step) == seq![items[start as int]],
{
    assert(stride(items, start + step, step) =~= Seq::<R>::empty());
    assert(stride(items, start, step) =~= seq![items[start as int]]);
}

/// Whatever the worker count, once every worker has finished, the merge
/// yields each item of the batch exactly once, in the order of submission:
/// nothing is lost, nothing comes twice.
pub proof fn lemma_merge_yields_batch<R>(items: Seq<R>, workers: nat)
    ensures
        drain(shards(items, workers), 0) == items,
{
    let width = effective_workers(workers);
    let count = shard_count(items.len(), workers);
    if count == 0 {
        assert(items =~= Seq::<R>::empty());
    } else {
        assert forall|j: int| 0 <= j < count implies #[trigger] shards(items, workers)[j]
            == rotation(items, count, 0, 0)[j] by {
            if count < width {
                lemma_stride_single(items, j as nat, width);
                lemma_stride_single(items, j as nat, count);
            }
        }
        assert(shards(items, workers) =~= rotation(items, count, 0, 0));
        lemma_drain_rotation(items, count, 0, 0);
        assert(items.skip(0) =~= items);
    }
}

/// With one worker the results come in the order of submission.
pub proof fn lemma_single_worker_keeps_order<R>(items: Seq<R>)
    ensures
        shards(items, 1).len() <= 1,
        drain(shards(items, 1), 0) == items,
{
    lemma_merge_yields_batch(items, 1);
}

/// With one worker for each item, the results that the merge yields are, as a
/// multiset, the results of the items.
pub proof fn lemma_worker_per_item_keeps_results<R>(items: Seq<R>)
    ensures
        shards(items, items.len()).len() == items.len(),
        drain(shards(items, items.len()), 0).to_multiset() == items.to_multiset(),
{
    lemma_merge_yields_batch(items, items.len());
}

/// Two runs over one batch yield the same results whatever their worker
/// counts: the same multiset, and in fact the same sequence.
pub proof fn lemma_worker_count_is_immaterial<R>(items: Seq<R>, first: nat, second: nat)
    ensures
        drain(shards(items, first), 0) == drain(shards(items, second), 0),
        drain(shards(items, first), 0).to_multiset() == drain(shards(items, second), 0).to_multiset(),
{
    lemma_merge_yields_batch(items, first);
    lemma_merge_yields_batch(items, second);
}

/// The channels between the workers and the merge while the workers run.
pub struct Net<R> {
    /// The position of the channel that the merge reads next.
    pub index: nat,
    /// For each open channel, what was sent and is not yet read.
    pub queued: Seq<Seq<R>>,
    /// For each open channel, what its worker has still to send.
    pub unsent: Seq<Seq<R>>,
}

/// Something that happens to the channels.
pub enum Event<R> {
    /// The worker of this channel sends its next result.
    Sent(int),
    /// The merge makes an attempt on the channel under the cursor and finds
    /// this.
    Attempt(Polled<R>),
}

impl<R> Net<R> {
    /// Every open channel has its worker, and the cursor is on an open
    /// channel unless none is left.
    pub open spec fn wf(self) -> bool {
        &&& self.queued.len() == self.unsent.len()
        &&& (self.index < self.queued.len() || (self.index == 0 && self.queued.len() == 0))
    }

    /// What is still to come from each open channel: what is queued, then
    /// what its worker has still to send.
    pub open spec fn outstanding(self) -> Seq<Seq<R>> {
        Seq::new(self.queued.len(), |j: int| self.queued[j] + self.unsent[j])
    }

    /// Whether the event can happen. A worker sends only what it has left to
    /// send. An attempt finds the first queued item if there is one. It can
    /// find the channel closed only if nothing is queued and the worker has
    /// nothing left to send; until the worker is gone it finds the channel
    /// empty.
    pub open spec fn allows(self, event: Event<R>) -> bool {
        match event {
            Event::Sent(worker) => 0 <= worker < self.unsent.len() && self.unsent[worker].len() > 0,
            Event::Attempt(polled) => self.queued.len() > 0 && match polled {
                Polled::Ready(item) => self.queued[self.index as int].len() > 0 && item
                    == self.queued[self.index as int].first(),
                Polled::Empty => self.queued[self.index as int].len() == 0,
                Polled::Disconnected => self.queued[self.index as int].len() == 0
                    && self.unsent[self.index as int].len() == 0,
            },
        }
    }

    /// The channels after the event.
    pub open spec fn after(self, event: Event<R>) -> Net<R> {
        match event {
            Event::Sent(worker) => Net {
                queued: self.queued.update(
                    worker,
                    self.queued[worker].push(self.unsent[worker].first()),
                ),
                unsent: self.unsent.update(worker, self.unsent[worker].drop_first()),
                ..self
            },
            Event::Attempt(polled) => {
                let (index, open) = cursor_after(self.index, self.queued.len(), polled);
                match polled {
                    Polled::Ready(_) => Net {
                        index,
                        queued: self.queued.update(
                            self.index as int,
                            self.queued[self.index as int].drop_first(),
                        ),
                        ..self
                    },
                    Polled::Empty => self,
                    Polled::Disconnected => Net {
                        index,
                        queued: self.queued.take(open as int),
                        unsent: self.unsent.take(open as int),
                    },
                }
            },
        }
    }

    /// Whether the events can happen one after the other.
    pub open spec fn allows_all(self, events: Seq<Event<R>>) -> bool
        decreases events.len(),
    {
        events.len() == 0 || (self.allows_all(events.drop_last()) && self.after_all(
            events.drop_last(),
        ).allows(events.last()))
    }

    /// The channels after the events.
    pub open spec fn after_all(self, events: Seq<Event<R>>) -> Net<R>
        decreases events.len(),
    {
        if events.len() == 0 {
            self
        } else {
            self.after_all(events.drop_last()).after(events.last())
        }
    }

    /// The measure of what can still happen: no event but an attempt that
    /// finds the channel empty leaves it as it is.
    pub open spec fn effort(self) -> nat {
        2 * pending(self.unsent) + pending(self.queued) + self.queued.len()
    }
}

/// What the event yields to the caller of the merge.
pub open spec fn yielded<R>(event: Event<R>) -> Seq<R> {
    match event {
        Event::Attempt(Polled::Ready(item)) => seq![item],
        _ => Seq::empty(),
    }
}

/// What the events yield to the caller of the merge, in order.
pub open spec fn yielded_by<R>(events: Seq<Event<R>>) -> Seq<R>
    decreases events.len(),
{
    if events.len() == 0 {
        Seq::empty()
    } else {
        yielded_by(events.drop_last()) + yielded(events.last())
    }
}

/// The channels at the start of a run: one for each shard of the batch, with
/// nothing sent yet.
pub open spec fn launched<R>(items: Seq<R>, workers: nat) -> Net<R> {
    Net {
        index: 0,
        queued: Seq::new(shard_count(items.len(), workers), |j: int| Seq::<R>::empty()),
        unsent: shards(items, workers),
    }
}

/// The first channels hold no more than all of them.
pub proof fn lemma_pending_take<R>(queues: Seq<Seq<R>>, kept: int)
    requires
        0 <= kept <= queues.len(),
    ensures
        pending(queues.take(kept)) <= pending(queues),
    decreases queues.len(),
{
    if kept < queues.len() {
        lemma_pending_take(queues.drop_last(), kept);
        assert(queues.drop_last().take(kept) =~= queues.take(kept));
    } else {
        assert(queues.take(kept) =~= queues);
    }
}

/// Whatever happens, what was yielded so far and what the merge will yield
/// once the workers have finished make up the same sequence as before.
pub proof fn lemma_event_keeps_outcome<R>(net: Net<R>, event: Event<R>)
    requires
        net.wf(),
        net.allows(event),
    ensures
        net.after(event).wf(),
        yielded(event) + drain(net.after(event).outstanding(), net.after(event).index) == drain(
            net.outstanding(),
            net.index,
        ),
{
    let next = net.after(event);
    let before = net.outstanding();
    let at = net.index as int;
    match event {
        Event::Sent(worker) => {
            assert(next.outstanding() =~= before) by {
                assert(net.queued[worker].push(net.unsent[worker].first())
                    + net.unsent[worker].drop_first() =~= net.queued[worker] + net.unsent[worker]);
            }
            assert(yielded(event) + drain(before, net.index) =~= drain(before, net.index));
        },
        Event::Attempt(Polled::Ready(item)) => {
            assert(before[at].first() == item);
            assert(next.outstanding() =~= before.update(at, before[at].drop_first())) by {
                assert(net.queued[at].drop_first() + net.unsent[at] =~= (net.queued[at]
                    + net.unsent[at]).drop_first());
            }
            vstd::arithmetic::div_mod::lemma_mod_bound((net.index + 1) as int, net.queued.len() as int);
        },
        Event::Attempt(Polled::Empty) => {
            assert(yielded(event) + drain(before, net.index) =~= drain(before, net.index));
        },
        Event::Attempt(Polled::Disconnected) => {
            assert(before[at].len() == 0);
            assert(next.outstanding() =~= before.take(at));
            assert(yielded(event) + drain(before.take(at), 0) =~= drain(before.take(at), 0));
        },
    }
}

/// The results come out as the batch went in. At any moment of a run, what
/// the merge has yielded, followed by what it will yield once the workers
/// have finished, is the batch in the order of submission. So what was
/// yielded so far is the beginning of the batch: no result is lost, none
/// comes twice, none overtakes another.
pub proof fn lemma_run_keeps_outcome<R>(items: Seq<R>, workers: nat, events: Seq<Event<R>>)
    requires
        launched(items, workers).allows_all(events),
    ensures
        launched(items, workers).after_all(events).wf(),
        yielded_by(events) + drain(
            launched(items, workers).after_all(events).outstanding(),
            launched(items, workers).after_all(events).index,
        ) == items,
        yielded_by(events) == items.take(yielded_by(events).len() as int),
    decreases events.len(),
{
    let start = launched(items, workers);
    if events.len() == 0 {
        assert(start.outstanding() =~= shards(items, workers));
        lemma_merge_yields_batch(items, workers);
        assert(yielded_by(events) + items =~= items);
    } else {
        let earlier = events.drop_last();
        lemma_run_keeps_outcome(items, workers, earlier);
        let net = start.after_all(earlier);
        lemma_event_keeps_outcome(net, events.last());
        let next = net.after(events.last());
        assert(yielded_by(events) + drain(next.outstanding(), next.index) =~= yielded_by(earlier) + (
        yielded(events.last()) + drain(next.outstanding(), next.index)));
    }
    assert(yielded_by(events) =~= items.take(yielded_by(events).len() as int));
}

/// The merge reports the end only when every result of the batch has been
/// yielded.
pub proof fn lemma_exhausted_means_complete<R>(items: Seq<R>, workers: nat, events: Seq<Event<R>>)
    requires
        launched(items, workers).allows_all(events),
        launched(items, workers).after_all(events).queued.len() == 0,
    ensures
        yielded_by(events) == items,
{
    lemma_run_keeps_outcome(items, workers, events);
    let end = launched(items, workers).after_all(events);
    assert(drain(end.outstanding(), end.index) =~= Seq::<R>::empty());
    assert(yielded_by(events) + Seq::<R>::empty() =~= yielded_by(events));
}

/// An attempt on the channels of a batch whose workers have sent nothing
/// yet finds the channel empty: neither an item nor the end.
pub proof fn lemma_fresh_is_not_ready<R>(items: Seq<R>, workers: nat, polled: Polled<R>)
    requires
        launched(items, workers).allows(Event::Attempt(polled)),
    ensures
        polled is Empty,
{
    let start = launched(items, workers);
    assert(start.unsent[0].len() > 0);
}

/// The merge never hangs by its own doing: as long as a channel is open,
/// something other than an attempt that finds the channel empty can happen.
pub proof fn lemma_something_can_happen<R>(net: Net<R>)
    requires
        net.wf(),
        net.queued.len() > 0,
    ensures
        exists|event: Event<R>| net.allows(event) && !(event matches Event::Attempt(Polled::Empty)),
{
    let at = net.index as int;
    if net.unsent[at].len() > 0 {
        assert(net.allows(Event::Sent(at)));
    } else if net.queued[at].len() > 0 {
        assert(net.allows(Event::Attempt(Polled::Ready(net.queued[at].first()))));
    } else {
        assert(net.allows(Event::Attempt(Polled::<R>::Disconnected)));
    }
}

/// Every event but an attempt that finds the channel empty uses up some of
/// the effort that is left, so only so many of them can happen.
pub proof fn lemma_event_uses_effort<R>(net: Net<R>, event: Event<R>)
    requires
        net.wf(),
        net.allows(event),
        !(event matches Event::Attempt(Polled::Empty)),
    ensures
        net.after(event).effort() < net.effort(),
{
    let at = net.index as int;
    match event {
        Event::Sent(worker) => {
            lemma_pending_update(net.unsent, worker, net.unsent[worker].drop_first());
            lemma_pending_update(
                net.queued,
                worker,
                net.queued[worker].push(net.unsent[worker].first()),
            );
        },
        Event::Attempt(Polled::Ready(item)) => {
            lemma_pending_update(net.queued, at, net.queued[at].drop_first());
        },
        Event::Attempt(Polled::Empty) => {},
        Event::Attempt(Polled::Disconnected) => {
            lemma_pending_take(net.queued, at);
            lemma_pending_take(net.unsent, at);
        },
    }
}

} // verus!
