//! The rate limiter: which cooldowns a call must sit through, given how many
//! calls were already made with its credential.

use vstd::prelude::*;

verus! {

/// One rule of the limiter: after every `threshold` calls with a credential,
/// the next call with it waits `cooldown` seconds first.
#[derive(Clone, Copy, Debug, PartialEq, Eq)]
pub struct Tier {
    pub threshold: usize,
    pub cooldown: u64,
}

/// A tier fires when the number of calls made so far is a positive multiple of
/// its threshold. A tier with a threshold of zero never fires.
pub open spec fn triggers(counter: nat, threshold: nat) -> bool {
    counter != 0 && threshold != 0 && counter % threshold == 0
}

/// What one tier contributes before a call that finds `counter` calls made.
pub open spec fn tier_cooldown(counter: nat, tier: Tier) -> Option<u64> {
    if triggers(counter, tier.threshold as nat) {
        Some(tier.cooldown)
    } else {
        None
    }
}

/// The cooldowns, in tier order, that precede a call which finds `counter`
/// calls already made. Every tier is judged on its own: a counter that meets
/// two thresholds gets both cooldowns.
pub open spec fn cooldowns(counter: nat, tiers: Seq<Tier>) -> Seq<u64> {
    tiers.filter_map(|tier: Tier| tier_cooldown(counter, tier))
}

/// Lists the cooldowns to sit through before the next call, given the counter
/// as it stands before that call is counted.
pub fn should_wait(counter: usize, tiers: &Vec<Tier>) -> (pauses: Vec<u64>)
    ensures
        pauses@ == cooldowns(counter as nat, tiers@),
{
    let mut pauses: Vec<u64> = Vec::new();
    let mut i: usize = 0;
    while i < tiers.len()
        invariant
            i <= tiers.len(),
            pauses@ == cooldowns(counter as nat, tiers@.take(i as int)),
        decreases tiers.len() - i,
    {
        let tier = tiers[i];
        proof {
            tiers@.lemma_filter_map_take_succ(|tier: Tier| tier_cooldown(counter as nat, tier), i as int);
        }
        if counter != 0 && tier.threshold != 0 && counter % tier.threshold == 0 {
            pauses.push(tier.cooldown);
        }
        i = i + 1;
    }
    proof {
        assert(tiers@.take(tiers.len() as int) =~= tiers@);
    }
    pauses
}

/// With a single tier, a call waits exactly when the counter it finds is a
/// positive multiple of the threshold, and then for that tier's cooldown.
pub proof fn lemma_single_tier(counter: nat, tier: Tier)
    ensures
        cooldowns(counter, seq![tier]) == if counter > 0 && tier.threshold > 0 && counter % (
        tier.threshold as nat) == 0 {
            seq![tier.cooldown]
        } else {
            Seq::<u64>::empty()
        },
{
    Seq::lemma_filter_map_singleton(tier, |tier: Tier| tier_cooldown(counter, tier));
}

/// A tier with a threshold of zero adds no cooldown, whatever the counter.
pub proof fn lemma_zero_threshold_never_fires(counter: nat, tiers: Seq<Tier>, cooldown: u64)
    ensures
        cooldowns(counter, tiers.push(Tier { threshold: 0, cooldown })) == cooldowns(counter, tiers),
{
    lemma_cooldowns_push(counter, tiers, Tier { threshold: 0, cooldown });
}

/// The call that finds no earlier call never waits, whatever the tiers.
pub proof fn lemma_first_call_never_waits(tiers: Seq<Tier>)
    ensures
        cooldowns(0, tiers) == Seq::<u64>::empty(),
    decreases tiers.len(),
{
    if tiers.len() > 0 {
        lemma_first_call_never_waits(tiers.drop_last());
    }
}

/// A cooldown is listed for a tier exactly when that tier fires, and the list
/// keeps the order of the tiers: adding a tier at the end adds its cooldown at
/// the end, or nothing.
pub proof fn lemma_cooldowns_push(counter: nat, tiers: Seq<Tier>, tier: Tier)
    ensures
        cooldowns(counter, tiers.push(tier)) == if triggers(counter, tier.threshold as nat) {
            cooldowns(counter, tiers).push(tier.cooldown)
        } else {
            cooldowns(counter, tiers)
        },
{
    assert(tiers.push(tier).drop_last() =~= tiers);
    assert(cooldowns(counter, tiers) + seq![tier.cooldown] =~= cooldowns(counter, tiers).push(
        tier.cooldown,
    ));
}

} // verus!
