//! Handing a pool of reward units out to the candidate lines, in cart order.

use vstd::prelude::*;
use crate::model::Target;
use crate::classify::total_quantity;

verus! {

/// How many units may be discounted at most. Where buy and reward are the
/// same product, the units that were bought are never discounted.
pub open spec fn max_discountable(same_product: bool, max_reward: int, buy_quantity: int, min_quantity: int) -> int {
    if same_product {
        if max_reward <= buy_quantity - min_quantity {
            max_reward
        } else {
            buy_quantity - min_quantity
        }
    } else {
        max_reward
    }
}

/// What a line of `quantity` units takes from a pool of `remaining` units:
/// the smaller of the two, and nothing where that is not positive.
pub open spec fn grant(quantity: int, remaining: int) -> int {
    let amount = if quantity <= remaining {
        quantity
    } else {
        remaining
    };
    if amount > 0 {
        amount
    } else {
        0
    }
}

/// The units handed out to all of `candidates` from a pool of `pool` units.
pub open spec fn granted(candidates: Seq<Target>, pool: int) -> int
    decreases candidates.len(),
{
    if candidates.len() == 0 {
        0
    } else {
        let before = granted(candidates.drop_last(), pool);
        before + grant(candidates.last().quantity as int, pool - before)
    }
}

/// The targets of the allocation: each candidate in turn takes what it can
/// from what is left of the pool; a candidate that takes nothing is left out.
pub open spec fn allocate(candidates: Seq<Target>, pool: int) -> Seq<Target>
    decreases candidates.len(),
{
    if candidates.len() == 0 {
        Seq::empty()
    } else {
        let before = allocate(candidates.drop_last(), pool);
        let amount = grant(
            candidates.last().quantity as int,
            pool - granted(candidates.drop_last(), pool),
        );
        if amount > 0 {
            before.push(Target { variant_id: candidates.last().variant_id, quantity: amount as i32 })
        } else {
            before
        }
    }
}

/// The units handed out are never negative and never more than the pool.
pub proof fn lemma_granted_bounds(candidates: Seq<Target>, pool: int)
    ensures
        0 <= granted(candidates, pool),
        granted(candidates, pool) <= pool || granted(candidates, pool) == 0,
    decreases candidates.len(),
{
    if candidates.len() > 0 {
        lemma_granted_bounds(candidates.drop_last(), pool);
    }
}

/// The quantities of the targets add up to the units handed out, so to no
/// more than the pool.
pub proof fn lemma_allocate_total(candidates: Seq<Target>, pool: int)
    ensures
        total_quantity(allocate(candidates, pool)) == granted(candidates, pool),
        total_quantity(allocate(candidates, pool)) <= pool || total_quantity(
            allocate(candidates, pool),
        ) == 0,
    decreases candidates.len(),
{
    lemma_granted_bounds(candidates, pool);
    if candidates.len() > 0 {
        let init = candidates.drop_last();
        lemma_allocate_total(init, pool);
        let amount = grant(candidates.last().quantity as int, pool - granted(init, pool));
        if amount > 0 {
            assert(allocate(candidates, pool).drop_last() =~= allocate(init, pool));
        }
    }
}

/// Whether target `t` draws on candidate `c`: the same variant, at least one
/// unit, and no more units than the candidate has.
pub open spec fn draws_on(t: Target, c: Target) -> bool {
    t.variant_id == c.variant_id && 0 < t.quantity <= c.quantity
}

/// Every target of the allocation draws on one of the candidates.
pub proof fn lemma_allocate_within_lines(candidates: Seq<Target>, pool: int, k: int)
    requires
        0 <= k < allocate(candidates, pool).len(),
    ensures
        exists|i: int|
            0 <= i < candidates.len() && draws_on(allocate(candidates, pool)[k], #[trigger] candidates[i]),
    decreases candidates.len(),
{
    if candidates.len() > 0 {
        let init = candidates.drop_last();
        if k < allocate(init, pool).len() {
            lemma_allocate_within_lines(init, pool, k);
            let i = choose|i: int|
                0 <= i < init.len() && draws_on(allocate(init, pool)[k], #[trigger] init[i]);
            assert(draws_on(allocate(candidates, pool)[k], candidates[i]));
        } else {
            assert(draws_on(allocate(candidates, pool)[k], candidates[candidates.len() - 1]));
        }
    }
}

/// A pool without units yields no target.
pub proof fn lemma_allocate_nothing(candidates: Seq<Target>, pool: int)
    requires
        pool <= 0,
    ensures
        allocate(candidates, pool) == Seq::<Target>::empty(),
        granted(candidates, pool) == 0,
    decreases candidates.len(),
{
    if candidates.len() > 0 {
        lemma_allocate_nothing(candidates.drop_last(), pool);
    }
}

/// Hands `pool` units out to `candidates`, in their order.
pub fn allocate_rewards(candidates: &Vec<Target>, pool: i128) -> (targets: Vec<Target>)
    ensures
        targets@ == allocate(candidates@, pool as int),
{
    let mut targets: Vec<Target> = Vec::new();
    if pool <= 0 {
        proof {
            lemma_allocate_nothing(candidates@, pool as int);
        }
        return targets;
    }
    let mut remaining: i128 = pool;
    let mut i: usize = 0;
    while i < candidates.len()
        invariant
            i <= candidates@.len(),
            0 <= remaining <= pool,
            remaining == pool - granted(candidates@.take(i as int), pool as int),
            targets@ == allocate(candidates@.take(i as int), pool as int),
        decreases candidates@.len() - i,
    {
        proof {
            assert(candidates@.take(i + 1).drop_last() =~= candidates@.take(i as int));
        }
        let candidate = &candidates[i];
        if candidate.quantity > 0 && remaining > 0 {
            let amount: i32 = if candidate.quantity as i128 <= remaining {
                candidate.quantity
            } else {
                remaining as i32
            };
            targets.push(Target { variant_id: candidate.variant_id.clone(), quantity: amount });
            remaining = remaining - amount as i128;
        }
        i += 1;
    }
    assert(candidates@.take(i as int) =~= candidates@);
    targets
}

} // verus!
