//! The partitioner: deals an ordered batch round-robin onto a number of
//! shards.

use vstd::prelude::*;
use vstd::arithmetic::div_mod::{lemma_fundamental_div_mod_converse, lemma_small_mod, lemma_mod_sub_multiples_vanish};

verus! {

/// The items at positions `start`, `start + step`, `start + 2 * step`, ... of
/// `items`, in that order.
pub open spec fn stride<A>(items: Seq<A>, start: nat, step: nat) -> Seq<A>
    decreases
        if start < items.len() {
            items.len() - start
        } else {
            0
        },
{
    if start >= items.len() || step == 0 {
        Seq::empty()
    } else {
        seq![items[start as int]] + stride(items, start + step, step)
    }
}

/// The worker count that is used: a count of zero stands for one.
pub open spec fn effective_workers(workers: nat) -> nat {
    if workers == 0 {
        1
    } else {
        workers
    }
}

/// The number of shards that hold at least one item.
pub open spec fn shard_count(len: nat, workers: nat) -> nat {
    if len < effective_workers(workers) {
        len
    } else {
        effective_workers(workers)
    }
}

/// The shards of a batch: shard `i` holds the items at positions `i`,
/// `i + T`, `i + 2T`, ... where `T` is the worker count. Shards that would be
/// empty are left out.
pub open spec fn shards<A>(items: Seq<A>, workers: nat) -> Seq<Seq<A>> {
    Seq::new(
        shard_count(items.len(), workers),
        |i: int| stride(items, i as nat, effective_workers(workers)),
    )
}

/// The contents of a list of vectors.
pub open spec fn contents<A>(lists: Seq<Vec<A>>) -> Seq<Seq<A>> {
    lists.map_values(|list: Vec<A>| list@)
}

/// Position `n` is the next one of the stride that begins at `start`.
pub open spec fn lands_on(n: nat, start: nat, step: nat) -> bool {
    start <= n && (n - start) % (step as int) == 0
}

/// Appending an item to a batch appends it to the one stride whose next
/// position is the new one, and changes no other.
pub proof fn lemma_stride_push<A>(items: Seq<A>, item: A, start: nat, step: nat)
    requires
        step > 0,
    ensures
        stride(items.push(item), start, step) == if lands_on(items.len(), start, step) {
            stride(items, start, step).push(item)
        } else {
            stride(items, start, step)
        },
    decreases
        if start < items.len() {
            items.len() - start
        } else {
            0
        },
{
    let n = items.len();
    let longer = items.push(item);
    if start > n {
    } else if start == n {
        assert(stride(longer, start + step, step) =~= Seq::<A>::empty());
        assert(stride(longer, start, step) =~= seq![item]);
        assert(stride(items, start, step).push(item) =~= seq![item]);
    } else {
        lemma_stride_push(items, item, start + step, step);
        if n - start >= step {
            lemma_mod_sub_multiples_vanish(n - start, step as int);
        } else {
            lemma_small_mod((n - start) as nat, step);
        }
        assert(lands_on(n, start, step) == lands_on(n, start + step, step));
        assert(longer[start as int] == items[start as int]);
        if lands_on(n, start, step) {
            assert(stride(longer, start, step) =~= stride(items, start, step).push(item));
        }
    }
}

/// The item at place `k` of a stride is the item at position
/// `start + k * step` of the batch.
pub proof fn lemma_stride_index<A>(items: Seq<A>, start: nat, step: nat, k: nat)
    requires
        k < stride(items, start, step).len(),
    ensures
        start + k * step < items.len(),
        stride(items, start, step)[k as int] == items[(start + k * step) as int],
    decreases k,
{
    if k == 0 {
        assert(0 * step == 0) by (nonlinear_arith);
    } else {
        lemma_stride_index(items, start + step, step, (k - 1) as nat);
        assert(start + step + (k - 1) * step == start + k * step) by (nonlinear_arith);
    }
}

/// The item at position `start + k * step` of the batch stands at place `k`
/// of the stride.
pub proof fn lemma_stride_holds<A>(items: Seq<A>, start: nat, step: nat, k: nat)
    requires
        step > 0,
        start + k * step < items.len(),
    ensures
        k < stride(items, start, step).len(),
        stride(items, start, step)[k as int] == items[(start + k * step) as int],
    decreases k,
{
    assert(k * step >= 0) by (nonlinear_arith);
    if k == 0 {
        assert(0 * step == 0) by (nonlinear_arith);
    } else {
        assert(start + step + (k - 1) * step == start + k * step) by (nonlinear_arith);
        lemma_stride_holds(items, start + step, step, (k - 1) as nat);
    }
}

/// The position in the batch of the item at a place of a shard.
pub open spec fn position_of(shard: int, place: int, width: nat) -> int {
    shard + place * width
}

/// Every item of the batch is in exactly one shard, at exactly one place:
/// the item at position `p` is in shard `p % T` at place `p / T`, where `T`
/// is the worker count, and every place of every shard holds the item of a
/// position of its own.
pub proof fn lemma_every_item_in_one_shard<A>(items: Seq<A>, workers: nat, position: nat)
    requires
        position < items.len(),
    ensures
        ({
            let width = effective_workers(workers);
            let dealt = shards(items, workers);
            let shard = (position % width) as int;
            let place = (position / width) as int;
            &&& 0 <= shard < dealt.len()
            &&& 0 <= place < dealt[shard].len()
            &&& dealt[shard][place] == items[position as int]
            &&& forall|j: int, k: int|
                0 <= j < dealt.len() && 0 <= k < dealt[j].len() && #[trigger] position_of(
                    j,
                    k,
                    width,
                ) == position ==> j == shard && k == place
        }),
{
    let width = effective_workers(workers);
    let dealt = shards(items, workers);
    let shard = position % width;
    let place = position / width;
    vstd::arithmetic::div_mod::lemma_fundamental_div_mod(position as int, width as int);
    vstd::arithmetic::div_mod::lemma_mod_bound(position as int, width as int);
    assert(place * width == width * place) by (nonlinear_arith);
    assert(shard <= position) by {
        assert(width * place >= 0) by (nonlinear_arith)
            requires
                width >= 0,
                place >= 0,
        ;
    }
    lemma_stride_holds(items, shard, width, place);
    assert forall|j: int, k: int|
        0 <= j < dealt.len() && 0 <= k < dealt[j].len() && #[trigger] position_of(j, k, width)
            == position implies j == shard && k == place by {
        assert(k * width + j == position);
        lemma_fundamental_div_mod_converse(position as int, width as int, k, j);
    }
}

/// Dealing commutes with fetching: the results of the items of a stride are
/// the stride of the results.
pub proof fn lemma_stride_of_results<A, R>(items: Seq<A>, fetch: spec_fn(A) -> R, start: nat, step: nat)
    ensures
        stride(items.map_values(fetch), start, step) == stride(items, start, step).map_values(fetch),
    decreases
        if start < items.len() {
            items.len() - start
        } else {
            0
        },
{
    let results = items.map_values(fetch);
    if start >= items.len() || step == 0 {
        assert(stride(results, start, step) =~= stride(items, start, step).map_values(fetch));
    } else {
        lemma_stride_of_results(items, fetch, start + step, step);
        assert(stride(results, start, step) =~= stride(items, start, step).map_values(fetch));
    }
}

/// The results of the shards of a batch are the shards of the results of the
/// batch: what each worker sends, in its order, is its share of the results.
pub proof fn lemma_shards_of_results<A, R>(items: Seq<A>, fetch: spec_fn(A) -> R, workers: nat)
    ensures
        shards(items.map_values(fetch), workers) == shards(items, workers).map_values(
            |shard: Seq<A>| shard.map_values(fetch),
        ),
{
    let width = effective_workers(workers);
    let left = shards(items.map_values(fetch), workers);
    let right = shards(items, workers).map_values(|shard: Seq<A>| shard.map_values(fetch));
    assert forall|j: int| 0 <= j < left.len() implies left[j] == right[j] by {
        lemma_stride_of_results(items, fetch, j as nat, width);
    }
    assert(left =~= right);
}

/// Among the strides that begin below `step`, only the one that begins at
/// `n % step` has `n` as its next position.
pub proof fn lemma_lands_on_unique(n: nat, start: nat, step: nat)
    requires
        start < step,
    ensures
        lands_on(n, start, step) <==> start == n % step,
{
    if start <= n {
        let d = (n - start) as int;
        let w = step as int;
        vstd::arithmetic::div_mod::lemma_fundamental_div_mod(d, w);
        vstd::arithmetic::div_mod::lemma_fundamental_div_mod(n as int, w);
        if d % w == 0 {
            let q = d / w;
            assert(n == q * w + start) by (nonlinear_arith)
                requires
                    d == w * q + 0,
                    d == n - start,
            ;
            lemma_fundamental_div_mod_converse(n as int, w, q, start as int);
        }
        if start == n % step {
            let q = (n as int) / w;
            assert(d == q * w + 0) by (nonlinear_arith)
                requires
                    n == w * q + start,
                    d == n - start,
            ;
            lemma_fundamental_div_mod_converse(d, w, q, 0);
        }
    } else {
        lemma_small_mod(n, step);
    }
}

/// Deals `items` onto `max(1, workers)` shards: the item at position `i` goes
/// to shard `i % max(1, workers)`, and keeps its place among the items of that
/// shard. Shards that get no item are not returned.
pub fn partition<A>(items: Vec<A>, workers: usize) -> (dealt: Vec<Vec<A>>)
    ensures
        contents(dealt@) == shards(items@, workers as nat),
{
    let width: usize = if workers == 0 { 1 } else { workers };
    let total: usize = items.len();
    let count: usize = if total < width { total } else { width };
    let ghost all = items@;

    // Turn the batch over, so that its items can be taken from the back in
    // their order.
    let mut items = items;
    let mut turned: Vec<A> = Vec::new();
    while items.len() > 0
        invariant
            total == all.len(),
            items@.len() + turned@.len() == total,
            items@ == all.take(items@.len() as int),
            turned@ == all.skip(items@.len() as int).reverse(),
        decreases items.len(),
    {
        let item = items.pop().unwrap();
        turned.push(item);
        assert(item == all[items@.len() as int]);
        assert(items@ =~= all.take(items@.len() as int));
        assert(turned@ =~= all.skip(items@.len() as int).reverse());
    }

    let mut dealt: Vec<Vec<A>> = Vec::new();
    while dealt.len() < count
        invariant
            dealt@.len() <= count,
            forall|j: int| 0 <= j < dealt@.len() ==> (#[trigger] dealt@[j])@ == Seq::<A>::empty(),
        decreases count - dealt.len(),
    {
        dealt.push(Vec::new());
    }

    let mut next: usize = 0;
    while next < total
        invariant
            next <= total,
            total == all.len(),
            width > 0,
            count == shard_count(total as nat, workers as nat),
            width == effective_workers(workers as nat),
            dealt@.len() == count,
            turned@ == all.skip(next as int).reverse(),
            forall|j: int| 0 <= j < count ==> (#[trigger] dealt@[j])@ == stride(all.take(next as int), j as nat, width as nat),
        decreases total - next,
    {
        let item = turned.pop().unwrap();
        let shard = next % width;
        proof {
            assert(item == all[next as int]);
            assert(all.take(next + 1) =~= all.take(next as int).push(item));
            assert forall|j: int| 0 <= j < count implies #[trigger] stride(all.take(next + 1), j as nat, width as nat)
                == if j == shard { stride(all.take(next as int), j as nat, width as nat).push(item) } else { stride(all.take(next as int), j as nat, width as nat) } by {
                lemma_stride_push(all.take(next as int), item, j as nat, width as nat);
                lemma_lands_on_unique(next as nat, j as nat, width as nat);
            }
            vstd::arithmetic::div_mod::lemma_mod_bound(next as int, width as int);
            if total >= width { } else { lemma_small_mod(next as nat, width as nat); }
        }
        dealt[shard].push(item);
        next = next + 1;
        assert(turned@ =~= all.skip(next as int).reverse());
    }
    proof {
        assert(all.take(total as int) =~= all);
        assert(contents(dealt@) =~= shards(all, workers as nat));
    }
    dealt
}

} // verus!
