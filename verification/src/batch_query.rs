//! The batch dispatcher: the batch with its settings, its layout for a run,
//! and the iterator that merges the result channels of the workers.

use std::sync::mpsc::Receiver;
use vstd::prelude::*;
use crate::merge::{Polled, cursor_after};
use crate::api_call::ApiCall;
use crate::limiter::Tier;
use crate::partition::{partition, shards, contents};
use crate::registry::{Registry, distinct, slots_of};
use crate::text::optional_texts;
use crate::worker::{Worker, WorkerState};

verus! {

/// The receiving end of a channel of `std::sync::mpsc`. Nothing is known of
/// what it holds.
#[verifier::external_type_specification]
#[verifier::external_body]
#[verifier::reject_recursive_types(T)]
pub struct ExReceiver<T>(Receiver<T>);

/// A batch of requests and the way it is to be run.
pub struct BatchQuery<A: ApiCall> {
    offset: usize,
    limits: Vec<Tier>,
    queries: Vec<A>,
    threads: usize,
    concurrent_calls: bool,
}

/// What a batch holds.
pub struct Batch<A> {
    /// The number of calls already made with every credential.
    pub offset: nat,
    /// The tiers of the rate limiter, in the order in which they are judged.
    pub limits: Seq<Tier>,
    /// The requests, in the order of submission.
    pub queries: Seq<A>,
    /// The number of workers.
    pub threads: nat,
    /// Whether calls with one credential may overlap.
    pub concurrent_calls: bool,
}

impl<A: ApiCall> View for BatchQuery<A> {
    type V = Batch<A>;

    closed spec fn view(&self) -> Batch<A> {
        Batch {
            offset: self.offset as nat,
            limits: self.limits@,
            queries: self.queries@,
            threads: self.threads as nat,
            concurrent_calls: self.concurrent_calls,
        }
    }
}

/// The credential of each request of a batch.
pub open spec fn keys_of<A: ApiCall>(queries: Seq<A>) -> Seq<Option<Seq<char>>> {
    queries.map_values(|query: A| query.key())
}

/// A worker that has not begun its shard.
pub open spec fn fresh_worker(slots: Seq<Option<usize>>, limits: Seq<Tier>, concurrent: bool) -> WorkerState {
    WorkerState { slots, tiers: limits, concurrent, position: 0, awaiting: false, queue: Seq::empty() }
}

/// A batch laid out for its run: the registry of its credentials, its shards,
/// and the worker of each shard.
pub struct Dispatch<A> {
    /// The distinct credentials of the batch.
    pub registry: Registry,
    /// The requests of each worker, in the order in which it runs them.
    pub shards: Vec<Vec<A>>,
    /// The worker of each shard.
    pub workers: Vec<Worker>,
}

/// Calls `num_cpus::get`, the number of logical cores that this machine
/// offers to the process. The number is the machine's; the crate documents
/// that it is at least one, and no more is claimed of it.
#[verifier::external_body]
fn logical_cores() -> (cores: usize)
    ensures
        cores >= 1,
{
    num_cpus::get()
}

/// A copy of a list of plain values.
fn copied<T: Copy>(list: &Vec<T>) -> (copy: Vec<T>)
    ensures
        copy@ == list@,
{
    let mut copy: Vec<T> = Vec::new();
    let mut i: usize = 0;
    while i < list.len()
        invariant
            i <= list.len(),
            copy@ == list@.take(i as int),
        decreases list.len() - i,
    {
        copy.push(list[i]);
        assert(copy@ =~= list@.take(i + 1));
        i = i + 1;
    }
    assert(list@.take(list.len() as int) =~= list@);
    copy
}

impl<A: ApiCall> BatchQuery<A> {
    /// An empty batch: no call made so far, no rate limit, one worker for
    /// each logical core of the machine, which is at least one, and calls
    /// with one credential never overlapping.
    pub fn new() -> (batch: Self)
        ensures
            batch@.threads >= 1,
            batch@.offset == 0,
            batch@.limits == Seq::<Tier>::empty(),
            batch@.queries == Seq::<A>::empty(),
            !batch@.concurrent_calls,
    {
        BatchQuery {
            offset: 0,
            limits: Vec::new(),
            queries: Vec::new(),
            threads: logical_cores(),
            concurrent_calls: false,
        }
    }

    /// Sets the number of calls that were already made with every
    /// credential.
    pub fn offset(&mut self, offset: usize) -> (chained: &mut Self)
        ensures
            chained@ == (Batch { offset: offset as nat, ..old(self)@ }),
            *final(self) == *final(chained),
    {
        self.offset = offset;
        self
    }

    /// Adds a tier to the rate limiter: after every `limit` calls with a
    /// credential, the next call with it waits `timeout` seconds first. Tiers
    /// are judged in the order in which they were added. A tier with a limit
    /// of zero is held like any other and never makes a call wait.
    pub fn limit(&mut self, limit: usize, timeout: u64) -> (chained: &mut Self)
        ensures
            chained@ == (Batch {
                limits: old(self)@.limits.push(Tier { threshold: limit, cooldown: timeout }),
                ..old(self)@
            }),
            *final(self) == *final(chained),
    {
        self.limits.push(Tier { threshold: limit, cooldown: timeout });
        self
    }

    /// Adds a request at the end of the batch.
    pub fn query(&mut self, query: A) -> (chained: &mut Self)
        ensures
            chained@ == (Batch { queries: old(self)@.queries.push(query), ..old(self)@ }),
            *final(self) == *final(chained),
    {
        self.queries.push(query);
        self
    }

    /// Adds requests at the end of the batch, in their order.
    pub fn queries(&mut self, queries: Vec<A>) -> (chained: &mut Self)
        ensures
            chained@ == (Batch { queries: old(self)@.queries + queries@, ..old(self)@ }),
            *final(self) == *final(chained),
    {
        let mut queries = queries;
        self.queries.append(&mut queries);
        self
    }

    /// Sets the number of workers.
    pub fn threads(&mut self, threads: usize) -> (chained: &mut Self)
        requires
            threads > 0,
        ensures
            chained@ == (Batch { threads: threads as nat, ..old(self)@ }),
            *final(self) == *final(chained),
    {
        self.threads = threads;
        self
    }

    /// Lets calls with one credential overlap.
    pub fn concurrent_calls(&mut self) -> (chained: &mut Self)
        ensures
            chained@ == (Batch { concurrent_calls: true, ..old(self)@ }),
            *final(self) == *final(chained),
    {
        self.concurrent_calls = true;
        self
    }

    /// Lays the batch out for its run. The registry gets a counter for each
    /// distinct credential, starting at the offset. The requests are dealt
    /// round-robin onto the workers, and each worker that got a request is
    /// set up with the slot of each of its requests in the registry, the
    /// tiers and the mode.
    pub fn run(self) -> (dispatch: Dispatch<A>)
        ensures
            dispatch.registry.credentials() == distinct(keys_of(self@.queries)),
            dispatch.registry.start() == self@.offset,
            contents(dispatch.shards@) == shards(self@.queries, self@.threads),
            dispatch.workers@.len() == dispatch.shards@.len(),
            forall|j: int|
                0 <= j < dispatch.workers@.len() ==> (#[trigger] dispatch.workers@[j]).wf()
                    && dispatch.workers@[j]@ == fresh_worker(
                    shards(slots_of(keys_of(self@.queries)), self@.threads)[j],
                    self@.limits,
                    self@.concurrent_calls,
                ),
    {
        let mut keys: Vec<Option<String>> = Vec::new();
        let mut i: usize = 0;
        while i < self.queries.len()
            invariant
                i <= self.queries.len(),
                keys@.len() == i,
                optional_texts(keys@) == keys_of(self.queries@.take(i as int)),
            decreases self.queries.len() - i,
        {
            let ghost before = keys@;
            let key = self.queries[i].credential();
            keys.push(key);
            assert forall|j: int| 0 <= j <= i implies optional_texts(keys@)[j] == keys_of(
                self.queries@.take(i + 1),
            )[j] by {
                if j < i {
                    assert(optional_texts(before)[j] == keys_of(self.queries@.take(i as int))[j]);
                }
            }
            assert(optional_texts(keys@) =~= keys_of(self.queries@.take(i + 1)));
            i = i + 1;
        }
        assert(self.queries@.take(self.queries.len() as int) =~= self.queries@);
        let (registry, slots) = Registry::scan(&keys, self.offset);
        let threads = self.threads;
        let concurrent = self.concurrent_calls;
        let limits = self.limits;
        let ghost all_slots = slots@;
        let dealt_slots = partition(slots, threads);
        let dealt = partition(self.queries, threads);
        let mut workers: Vec<Worker> = Vec::new();
        let mut j: usize = 0;
        while j < dealt_slots.len()
            invariant
                j <= dealt_slots.len(),
                workers@.len() == j,
                contents(dealt_slots@) == shards(all_slots, threads as nat),
                forall|k: int|
                    0 <= k < j ==> (#[trigger] workers@[k]).wf() && workers@[k]@ == fresh_worker(
                        shards(all_slots, threads as nat)[k],
                        limits@,
                        concurrent,
                    ),
            decreases dealt_slots.len() - j,
        {
            assert(contents(dealt_slots@)[j as int] == dealt_slots@[j as int]@);
            let worker = Worker::new(copied(&dealt_slots[j]), copied(&limits), concurrent);
            workers.push(worker);
            j = j + 1;
        }
        proof {
            assert(contents(dealt_slots@).len() == dealt_slots@.len());
            assert(contents(dealt@).len() == dealt@.len());
        }
        Dispatch { registry, shards: dealt, workers }
    }
}

/// Calls `Receiver::try_recv` of `std::sync::mpsc` and tells its three
/// outcomes apart. What it finds depends on what the producer has done so
/// far, so nothing is claimed of the result.
#[verifier::external_body]
fn poll<T>(channel: &Receiver<T>) -> (polled: Polled<T>) {
    match channel.try_recv() {
        Ok(item) => Polled::Ready(item),
        Err(std::sync::mpsc::TryRecvError::Empty) => Polled::Empty,
        Err(std::sync::mpsc::TryRecvError::Disconnected) => Polled::Disconnected,
    }
}

/// What an attempt on the channel under the cursor means for the caller.
pub enum Progress<T> {
    /// The next result.
    Item(T),
    /// The channel under the cursor has nothing yet.
    NotReady,
    /// No channel is left.
    Exhausted,
    /// The channel under the cursor was closed; the attempt must be made
    /// again on the first channel.
    Retry,
}

/// Where a call that ends with the attempt `polled` can leave the merge, from
/// where it stood: the attempt was made where the merge stood, or, after the
/// channel under a cursor past the first was found closed, on the first
/// channel with the channels from the cursor on removed.
pub open spec fn settled<T>(start: (nat, nat), end: (nat, nat), polled: Polled<T>) -> bool {
    ||| end == cursor_after(start.0, start.1, polled)
    ||| (start.0 > 0 && end == cursor_after(0, start.0, polled))
}

/// Merges the result channels of the workers: it reads them in rotation, one
/// result from each in turn, and never leaves the channel under the cursor
/// for another that has a result ready.
#[verifier::reject_recursive_types(T)]
pub struct Iterator<T> {
    index: usize,
    channels: Vec<Receiver<T>>,
}

impl<T> Iterator<T> {
    /// The position of the channel that is read next.
    pub closed spec fn cursor(&self) -> nat {
        self.index as nat
    }

    /// The channels that are still open, in the order of their shards.
    pub closed spec fn open_channels(&self) -> Seq<Receiver<T>> {
        self.channels@
    }

    /// The cursor and the number of open channels.
    pub open spec fn state(&self) -> (nat, nat) {
        (self.cursor(), self.open_channels().len())
    }

    /// The cursor is on an open channel, or no channel is left and it is
    /// zero.
    pub open spec fn wf(&self) -> bool {
        self.cursor() < self.open_channels().len() || self.state() == (0nat, 0nat)
    }

    /// The position of the cursor.
    pub fn position(&self) -> (at: usize)
        ensures
            at == self.cursor(),
    {
        self.index
    }

    /// An iterator over the given channels, with the cursor on the first.
    pub fn new(channels: Vec<Receiver<T>>) -> (merged: Self)
        ensures
            merged.wf(),
            merged.cursor() == 0,
            merged.open_channels() == channels@,
    {
        Iterator { index: 0, channels }
    }

    /// Whether no channel is left.
    pub fn is_exhausted(&self) -> (done: bool)
        ensures
            done == (self.open_channels().len() == 0),
    {
        self.channels.len() == 0
    }

    /// The channel under the cursor.
    fn current(&self) -> (channel: &Receiver<T>)
        requires
            self.wf(),
            self.open_channels().len() > 0,
        ensures
            *channel == self.open_channels()[self.cursor() as int],
    {
        &self.channels[self.index]
    }

    /// Moves the cursor on by one channel, in rotation.
    fn pass(&mut self)
        requires
            old(self).wf(),
            old(self).open_channels().len() > 0,
        ensures
            final(self).wf(),
            final(self).open_channels() == old(self).open_channels(),
            final(self).cursor() == (old(self).cursor() + 1) % old(self).open_channels().len(),
    {
        let width = self.channels.len();
        self.index = if self.index + 1 == width { 0 } else { self.index + 1 };
        proof {
            if old(self).index + 1 == width {
                vstd::arithmetic::div_mod::lemma_mod_self_0(width as int);
            } else {
                vstd::arithmetic::div_mod::lemma_small_mod((old(self).index + 1) as nat, width as nat);
            }
        }
    }

    /// Closes the channel under the cursor and every channel behind it, and
    /// puts the cursor on the first channel.
    fn cut(&mut self)
        requires
            old(self).wf(),
            old(self).open_channels().len() > 0,
        ensures
            final(self).wf(),
            final(self).open_channels() == old(self).open_channels().take(old(self).cursor() as int),
            final(self).cursor() == 0,
    {
        let keep = self.index;
        self.index = 0;
        self.channels.truncate(keep);
        assert(self.channels@ =~= old(self).channels@.take(keep as int));
    }

    /// Applies what an attempt on the channel under the cursor found. An item
    /// is passed on and the cursor moves by one in rotation. A closed channel
    /// is removed together with all channels behind it, and the cursor goes
    /// back to the first channel. An empty channel changes nothing. With no
    /// channel left there is nothing to apply.
    pub fn advance(&mut self, polled: Polled<T>) -> (progress: Progress<T>)
        requires
            old(self).wf(),
        ensures
            final(self).wf(),
            old(self).open_channels().len() == 0 ==> progress is Exhausted && *final(self) == *old(
                self,
            ),
            old(self).open_channels().len() > 0 ==> {
                &&& final(self).state() == cursor_after(
                    old(self).cursor(),
                    old(self).open_channels().len(),
                    polled,
                )
                &&& final(self).open_channels() == old(self).open_channels().take(
                    final(self).open_channels().len() as int,
                )
                &&& progress == match polled {
                    Polled::Ready(item) => Progress::Item(item),
                    Polled::Empty => Progress::NotReady,
                    Polled::Disconnected => if old(self).cursor() == 0 {
                        Progress::Exhausted
                    } else {
                        Progress::Retry
                    },
                }
            },
    {
        if self.channels.len() == 0 {
            return Progress::Exhausted;
        }
        match polled {
            Polled::Ready(item) => {
                self.pass();
                assert(self.channels@ =~= old(self).channels@.take(self.channels@.len() as int));
                Progress::Item(item)
            },
            Polled::Empty => {
                assert(self.channels@ =~= old(self).channels@.take(self.channels@.len() as int));
                Progress::NotReady
            },
            Polled::Disconnected => {
                self.cut();
                if self.channels.len() == 0 {
                    Progress::Exhausted
                } else {
                    Progress::Retry
                }
            },
        }
    }

    /// Looks for the next result without blocking, on the channel under the
    /// cursor and on no other. `Some(Some(item))` is the next result,
    /// `Some(None)` says that the channel under the cursor has nothing yet,
    /// and `None` that no channel is left. Channels found closed
    /// on the way are removed as `advance` describes.
    pub fn try_next(&mut self) -> (found: Option<Option<T>>)
        requires
            old(self).wf(),
        ensures
            final(self).wf(),
            final(self).open_channels() == old(self).open_channels().take(
                final(self).open_channels().len() as int,
            ),
            found is None <==> final(self).open_channels().len() == 0,
            found matches Some(Some(item)) ==> settled(
                old(self).state(),
                final(self).state(),
                Polled::Ready(item),
            ),
            found matches Some(None) ==> settled(
                old(self).state(),
                final(self).state(),
                Polled::<T>::Empty,
            ),
    {
        loop
            invariant
                self.wf(),
                self.open_channels() == old(self).open_channels().take(
                    self.open_channels().len() as int,
                ),
                self.state() == old(self).state() || (old(self).cursor() > 0 && self.state() == (
                    0nat,
                    old(self).cursor(),
                )),
            decreases self.channels.len(),
        {
            if self.channels.len() == 0 {
                return None;
            }
            let ghost before = self.open_channels();
            let polled = poll(self.current());
            match self.advance(polled) {
                Progress::Item(item) => {
                    assert(self.open_channels() == before);
                    return Some(Some(item));
                },
                Progress::NotReady => {
                    return Some(None);
                },
                Progress::Exhausted => {
                    return None;
                },
                Progress::Retry => {
                    assert(self.open_channels() =~= old(self).open_channels().take(
                        self.open_channels().len() as int,
                    ));
                },
            }
        }
    }
}

} // verus!
