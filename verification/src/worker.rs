//! The worker of one shard, as a machine that says what to do next. Whoever
//! drives it does what an action asks (takes a lock, sleeps, runs a fetch and
//! sends its result) and asks for the next action.

use vstd::prelude::*;
use crate::limiter::{Tier, cooldowns, should_wait};

verus! {

/// One thing for the driver of a worker to do.
#[derive(Clone, Copy, Debug, PartialEq, Eq)]
pub enum Action {
    /// Take exclusive access to the counter of this slot, and read it.
    Acquire { slot: usize },
    /// Sleep for this many seconds.
    Pause { seconds: u64 },
    /// Add one to the counter of this slot, to which access is held.
    Count { slot: usize },
    /// Run the operation at this position of the shard and send its result.
    Fetch { position: usize },
    /// Give up the access to the counter of this slot.
    Release { slot: usize },
    /// The shard is exhausted: close the channel.
    Close,
}

/// The pauses for a list of cooldowns.
pub open spec fn pauses(seconds: Seq<u64>) -> Seq<Action> {
    seconds.map_values(|s: u64| Action::Pause { seconds: s })
}

/// What follows the access to the counter of an operation with a credential:
/// the cooldowns that the counter demands, then the count, and then the fetch
/// and the release of the counter. The fetch runs under the access unless
/// calls with one credential may overlap.
pub open spec fn admission(
    slot: usize,
    position: usize,
    counter: nat,
    tiers: Seq<Tier>,
    concurrent: bool,
) -> Seq<Action> {
    pauses(cooldowns(counter, tiers)) + seq![Action::Count { slot }] + if concurrent {
        seq![Action::Release { slot }, Action::Fetch { position }]
    } else {
        seq![Action::Fetch { position }, Action::Release { slot }]
    }
}

/// All that a worker does for one operation, where `counter` is what it reads
/// once it has access to the counter. An operation without a credential is
/// fetched at once.
pub open spec fn script(
    slot: Option<usize>,
    position: usize,
    counter: nat,
    tiers: Seq<Tier>,
    concurrent: bool,
) -> Seq<Action> {
    match slot {
        Some(slot) => seq![Action::Acquire { slot }] + admission(
            slot,
            position,
            counter,
            tiers,
            concurrent,
        ),
        None => seq![Action::Fetch { position }],
    }
}

/// Lists what follows the access to the counter of the operation at
/// `position`, given the counter as it was read.
pub fn plan_admission(slot: usize, position: usize, counter: usize, tiers: &Vec<Tier>, concurrent: bool) -> (plan:
    Vec<Action>)
    ensures
        plan@ == admission(slot, position, counter as nat, tiers@, concurrent),
{
    let seconds = should_wait(counter, tiers);
    let mut plan: Vec<Action> = Vec::new();
    let mut i: usize = 0;
    while i < seconds.len()
        invariant
            i <= seconds.len(),
            plan@ == pauses(seconds@.take(i as int)),
        decreases seconds.len() - i,
    {
        plan.push(Action::Pause { seconds: seconds[i] });
        assert(plan@ =~= pauses(seconds@.take(i + 1)));
        i = i + 1;
    }
    assert(seconds@.take(seconds.len() as int) =~= seconds@);
    plan.push(Action::Count { slot });
    if concurrent {
        plan.push(Action::Release { slot });
        plan.push(Action::Fetch { position });
    } else {
        plan.push(Action::Fetch { position });
        plan.push(Action::Release { slot });
    }
    assert(plan@ =~= admission(slot, position, counter as nat, tiers@, concurrent));
    plan
}

/// The state of a worker.
pub struct WorkerState {
    /// The slot of each operation of the shard, `None` for an operation
    /// without a credential.
    pub slots: Seq<Option<usize>>,
    /// The tiers of the rate limiter.
    pub tiers: Seq<Tier>,
    /// Whether calls with one credential may overlap.
    pub concurrent: bool,
    /// The position of the next operation to begin.
    pub position: nat,
    /// Whether access to a counter was asked for and the counter is not yet
    /// known.
    pub awaiting: bool,
    /// What is left to do for the operation that has begun.
    pub queue: Seq<Action>,
}

/// The next state of a worker and what it asks for, given the counter that
/// the driver read if the last action was `Acquire`.
pub open spec fn step_of(state: WorkerState, observed: Option<usize>) -> (WorkerState, Action) {
    if state.queue.len() > 0 {
        (WorkerState { queue: state.queue.drop_first(), ..state }, state.queue.first())
    } else if state.position >= state.slots.len() {
        (state, Action::Close)
    } else {
        match state.slots[state.position as int] {
            None => (
                WorkerState { position: state.position + 1, ..state },
                Action::Fetch { position: state.position as usize },
            ),
            Some(slot) => if state.awaiting && observed is Some {
                let plan = admission(
                    slot,
                    state.position as usize,
                    observed->0 as nat,
                    state.tiers,
                    state.concurrent,
                );
                (
                    WorkerState {
                        position: state.position + 1,
                        awaiting: false,
                        queue: plan.drop_first(),
                        ..state
                    },
                    plan.first(),
                )
            } else {
                (WorkerState { awaiting: true, ..state }, Action::Acquire { slot })
            },
        }
    }
}

/// The worker of one shard.
pub struct Worker {
    slots: Vec<Option<usize>>,
    tiers: Vec<Tier>,
    concurrent: bool,
    position: usize,
    awaiting: bool,
    plan: Vec<Action>,
    done: usize,
}

impl View for Worker {
    type V = WorkerState;

    closed spec fn view(&self) -> WorkerState {
        WorkerState {
            slots: self.slots@,
            tiers: self.tiers@,
            concurrent: self.concurrent,
            position: self.position as nat,
            awaiting: self.awaiting,
            queue: self.plan@.skip(self.done as int),
        }
    }
}

impl Worker {
    /// The worker is at an operation of its shard or behind the last.
    pub closed spec fn wf(&self) -> bool {
        &&& self.position <= self.slots@.len()
        &&& self.done <= self.plan@.len()
    }

    /// A worker at the start of its shard.
    pub fn new(slots: Vec<Option<usize>>, tiers: Vec<Tier>, concurrent: bool) -> (worker: Self)
        ensures
            worker.wf(),
            worker@ == (WorkerState {
                slots: slots@,
                tiers: tiers@,
                concurrent,
                position: 0,
                awaiting: false,
                queue: Seq::empty(),
            }),
    {
        let worker = Worker {
            slots,
            tiers,
            concurrent,
            position: 0,
            awaiting: false,
            plan: Vec::new(),
            done: 0,
        };
        assert(worker.plan@.skip(0) =~= Seq::<Action>::empty());
        worker
    }

    /// Says what to do next. `observed` is the counter that was read after
    /// the action `Acquire`; at any other time it is not looked at. As long
    /// as the counter is not handed over, the worker asks for it again.
    pub fn step(&mut self, observed: Option<usize>) -> (action: Action)
        requires
            old(self).wf(),
        ensures
            final(self).wf(),
            (final(self)@, action) == step_of(old(self)@, observed),
    {
        if self.done < self.plan.len() {
            let action = self.plan[self.done];
            self.done = self.done + 1;
            assert(self.plan@.skip(self.done as int) =~= old(self)@.queue.drop_first());
            return action;
        }
        assert(self@.queue =~= Seq::<Action>::empty());
        if self.position >= self.slots.len() {
            return Action::Close;
        }
        match self.slots[self.position] {
            None => {
                let position = self.position;
                self.position = position + 1;
                Action::Fetch { position }
            },
            Some(slot) => {
                match observed {
                    Some(counter) => {
                        if self.awaiting {
                            let plan = plan_admission(slot, self.position, counter, &self.tiers, self.concurrent);
                            let action = plan[0];
                            self.plan = plan;
                            self.done = 1;
                            self.position = self.position + 1;
                            self.awaiting = false;
                            assert(self.plan@.skip(1) =~= self.plan@.drop_first());
                            return action;
                        }
                    },
                    None => {},
                }
                self.awaiting = true;
                Action::Acquire { slot }
            },
        }
    }
}

/// The worker has nothing left of an operation that it began.
pub open spec fn idle(state: WorkerState) -> bool {
    state.queue.len() == 0 && !state.awaiting
}

/// The state in which a worker ends and the actions that it asks for over a
/// run of steps, where `observed` holds what the driver hands to each step.
pub open spec fn run(state: WorkerState, observed: Seq<Option<usize>>) -> (WorkerState, Seq<Action>)
    decreases observed.len(),
{
    if observed.len() == 0 {
        (state, Seq::empty())
    } else {
        let (reached, asked) = run(state, observed.drop_last());
        let (next, action) = step_of(reached, observed.last());
        (next, asked.push(action))
    }
}

/// A number of steps at which the driver has nothing to hand over.
pub open spec fn silent(steps: nat) -> Seq<Option<usize>> {
    Seq::new(steps, |i: int| None::<usize>)
}

/// What the driver hands over, step by step, in the course of one operation:
/// the counter that it read in answer to `Acquire`, and nothing otherwise.
pub open spec fn answers(slot: Option<usize>, counter: usize, tiers: Seq<Tier>) -> Seq<Option<usize>> {
    match slot {
        Some(_) => seq![None, Some(counter)] + silent(cooldowns(counter as nat, tiers).len() + 2),
        None => seq![None],
    }
}

/// A run in two parts is the run of the first part followed by the run of the
/// second from where the first ended.
pub proof fn lemma_run_in_parts(state: WorkerState, first: Seq<Option<usize>>, second: Seq<Option<usize>>)
    ensures
        run(state, first + second).0 == run(run(state, first).0, second).0,
        run(state, first + second).1 == run(state, first).1 + run(run(state, first).0, second).1,
    decreases second.len(),
{
    if second.len() == 0 {
        assert(first + second =~= first);
        assert(run(state, first).1 + Seq::<Action>::empty() =~= run(state, first).1);
    } else {
        lemma_run_in_parts(state, first, second.drop_last());
        assert((first + second).drop_last() =~= first + second.drop_last());
        assert((first + second).last() == second.last());
        let middle = run(state, first).0;
        let (reached, asked) = run(middle, second.drop_last());
        let (next, action) = step_of(reached, second.last());
        assert(run(state, first).1 + asked.push(action) =~= (run(state, first).1 + asked).push(
            action,
        ));
    }
}

/// While something is left of the operation that has begun, the worker asks
/// for that, in order, whatever is handed to it.
pub proof fn lemma_queue_first(state: WorkerState, steps: nat)
    requires
        steps <= state.queue.len(),
    ensures
        run(state, silent(steps)) == (
            WorkerState { queue: state.queue.skip(steps as int), ..state },
            state.queue.take(steps as int),
        ),
    decreases steps,
{
    if steps == 0 {
        assert(state.queue.skip(0) =~= state.queue);
        assert(state.queue.take(0) =~= Seq::<Action>::empty());
    } else {
        let fewer = (steps - 1) as nat;
        lemma_queue_first(state, fewer);
        assert(silent(steps).drop_last() =~= silent(fewer));
        let reached = WorkerState { queue: state.queue.skip(fewer as int), ..state };
        assert(reached.queue.first() == state.queue[fewer as int]);
        assert(reached.queue.drop_first() =~= state.queue.skip(steps as int));
        assert(state.queue.take(fewer as int).push(state.queue[fewer as int]) =~= state.queue.take(
            steps as int,
        ));
    }
}

/// The contract of a worker for one operation. From an idle state, and with
/// the counter handed over in answer to `Acquire`, the worker asks for the
/// script of the operation and nothing else, and is idle again at the next
/// operation. For an operation with a credential that is: access to its
/// counter, the cooldowns that the counter demands, the count, and the fetch
/// under that access or after it, as the mode says.
pub proof fn lemma_operation(state: WorkerState, counter: usize)
    requires
        idle(state),
        state.position < state.slots.len() <= usize::MAX,
    ensures
        run(state, answers(state.slots[state.position as int], counter, state.tiers)) == (
            WorkerState { position: state.position + 1, ..state },
            script(
                state.slots[state.position as int],
                state.position as usize,
                counter as nat,
                state.tiers,
                state.concurrent,
            ),
        ),
{
    let given = answers(state.slots[state.position as int], counter, state.tiers);
    let one = seq![None::<usize>];
    assert(one.drop_last() =~= Seq::<Option<usize>>::empty());
    assert(run(state, one.drop_last()) == (state, Seq::<Action>::empty()));
    match state.slots[state.position as int] {
        None => {
            assert(run(state, one).1 =~= seq![Action::Fetch { position: state.position as usize }]);
        },
        Some(slot) => {
            let plan = admission(
                slot,
                state.position as usize,
                counter as nat,
                state.tiers,
                state.concurrent,
            );
            let rest = (cooldowns(counter as nat, state.tiers).len() + 2) as nat;
            assert(plan.len() == rest + 1);
            let asking = WorkerState { awaiting: true, ..state };
            assert(run(state, one) == (asking, seq![Action::Acquire { slot }])) by {
                assert(Seq::<Action>::empty().push(Action::Acquire { slot }) =~= seq![
                    Action::Acquire { slot },
                ]);
            }
            let two = seq![Some(counter)];
            assert(two.drop_last() =~= Seq::<Option<usize>>::empty());
            let begun = WorkerState {
                position: state.position + 1,
                awaiting: false,
                queue: plan.drop_first(),
                ..state
            };
            assert(run(asking, two) == (begun, seq![plan.first()])) by {
                assert(run(asking, two.drop_last()) == (asking, Seq::<Action>::empty()));
                assert(Seq::<Action>::empty().push(plan.first()) =~= seq![plan.first()]);
            }
            lemma_queue_first(begun, rest);
            assert(plan.drop_first().skip(rest as int) =~= Seq::<Action>::empty());
            assert(plan.drop_first().take(rest as int) =~= plan.drop_first());
            lemma_run_in_parts(state, one, two);
            lemma_run_in_parts(state, one + two, silent(rest));
            assert(one + two =~= seq![None, Some(counter)]);
            assert(seq![Action::Acquire { slot }] + seq![plan.first()] + plan.drop_first() =~= seq![
                Action::Acquire { slot },
            ] + plan);
            assert(given =~= one + two + silent(rest));
            assert(state.queue =~= Seq::<Action>::empty());
        },
    }
}

/// What the driver hands over in the course of the first `upto` operations
/// of a shard, where `counters` holds the counter that each operation finds.
pub open spec fn shard_answers(
    slots: Seq<Option<usize>>,
    counters: Seq<usize>,
    tiers: Seq<Tier>,
    upto: nat,
) -> Seq<Option<usize>>
    decreases upto,
{
    if upto == 0 {
        Seq::empty()
    } else {
        let at = (upto - 1) as nat;
        shard_answers(slots, counters, tiers, at) + answers(slots[at as int], counters[at as int], tiers)
    }
}

/// The scripts of the first `upto` operations of a shard, one after the
/// other.
pub open spec fn shard_script(
    slots: Seq<Option<usize>>,
    counters: Seq<usize>,
    tiers: Seq<Tier>,
    concurrent: bool,
    upto: nat,
) -> Seq<Action>
    decreases upto,
{
    if upto == 0 {
        Seq::empty()
    } else {
        let at = (upto - 1) as nat;
        shard_script(slots, counters, tiers, concurrent, at) + script(
            slots[at as int],
            at as usize,
            counters[at as int] as nat,
            tiers,
            concurrent,
        )
    }
}

/// The contract of a worker for its shard: it runs the operations in their
/// order, each by its script, and starts no operation before the one ahead
/// of it is done.
pub proof fn lemma_shard(state: WorkerState, counters: Seq<usize>, upto: nat)
    requires
        idle(state),
        state.position == 0,
        upto <= state.slots.len() <= usize::MAX,
        counters.len() == state.slots.len(),
    ensures
        run(state, shard_answers(state.slots, counters, state.tiers, upto)) == (
            WorkerState { position: upto, ..state },
            shard_script(state.slots, counters, state.tiers, state.concurrent, upto),
        ),
    decreases upto,
{
    if upto > 0 {
        let at = (upto - 1) as nat;
        lemma_shard(state, counters, at);
        let reached = WorkerState { position: at, ..state };
        lemma_operation(reached, counters[at as int]);
        lemma_run_in_parts(
            state,
            shard_answers(state.slots, counters, state.tiers, at),
            answers(state.slots[at as int], counters[at as int], state.tiers),
        );
    }
}

/// When the shard is exhausted the worker asks for the channel to be closed,
/// and for nothing else from then on.
pub proof fn lemma_closes_at_the_end(state: WorkerState, observed: Option<usize>)
    requires
        idle(state),
        state.position >= state.slots.len(),
    ensures
        step_of(state, observed) == (state, Action::Close),
{
}

/// An operation without a credential is fetched at once: no access to a
/// counter, no count and no pause, whatever the tiers, the mode and what the
/// driver hands over.
pub proof fn lemma_no_credential_no_cooldown(state: WorkerState, observed: Option<usize>, counter: nat)
    requires
        idle(state),
        state.position < state.slots.len(),
        state.slots[state.position as int] is None,
    ensures
        step_of(state, observed) == (
            WorkerState { position: state.position + 1, ..state },
            Action::Fetch { position: state.position as usize },
        ),
        script(None, state.position as usize, counter, state.tiers, state.concurrent) == seq![
            Action::Fetch { position: state.position as usize },
        ],
{
}

/// Where calls with one credential must not overlap, the fetch stands between
/// the access to the counter and its release, right after the count. Where
/// they may overlap, the release stands between the count and the fetch.
pub proof fn lemma_fetch_and_release(slot: usize, position: usize, counter: nat, tiers: Seq<Tier>, concurrent: bool)
    ensures
        ({
            let all = script(Some(slot), position, counter, tiers, concurrent);
            let waits = cooldowns(counter, tiers).len() as int;
            &&& all.len() == waits + 4
            &&& all[0] == Action::Acquire { slot }
            &&& forall|i: int| 0 <= i < waits ==> all[1 + i] == Action::Pause { seconds: cooldowns(counter, tiers)[i] }
            &&& all[waits + 1] == Action::Count { slot }
            &&& all[waits + 2] == if concurrent {
                Action::Release { slot }
            } else {
                Action::Fetch { position }
            }
            &&& all[waits + 3] == if concurrent {
                Action::Fetch { position }
            } else {
                Action::Release { slot }
            }
        }),
{
}

} // verus!
