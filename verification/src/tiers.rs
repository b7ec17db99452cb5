//! Choosing the best tier a cart qualifies for.
//!
//! A tier is reduced to a [`Threshold`]: the quantity it needs and the key it
//! is ranked by. The best tier is the qualifying one with the largest key;
//! among equal keys the one configured first.

use vstd::prelude::*;
use crate::model::{Tier, VolumeTier};

verus! {

/// What tier selection reads of a tier.
pub struct Threshold {
    /// The quantity that the cart must reach.
    pub need: int,
    /// The rank of the tier among those that qualify.
    pub key: int,
}

/// Whether position `i` of `ths` is the best tier for `qty`: it qualifies, no
/// qualifying tier has a larger key, and every qualifying tier before it has
/// a smaller one.
pub open spec fn is_best(ths: Seq<Threshold>, qty: int, i: int) -> bool {
    &&& 0 <= i < ths.len()
    &&& qty >= ths[i].need
    &&& forall|j: int| 0 <= j < ths.len() && qty >= #[trigger] ths[j].need ==> ths[j].key <= ths[i].key
    &&& forall|j: int| 0 <= j < i && qty >= #[trigger] ths[j].need ==> ths[j].key < ths[i].key
}

/// The position of the best tier for `qty`, if any tier qualifies.
pub open spec fn best_index(ths: Seq<Threshold>, qty: int) -> Option<int> {
    if exists|i: int| is_best(ths, qty, i) {
        Some(choose|i: int| is_best(ths, qty, i))
    } else {
        None
    }
}

/// At most one position is the best.
pub proof fn lemma_best_unique(ths: Seq<Threshold>, qty: int, a: int, b: int)
    requires
        is_best(ths, qty, a),
        is_best(ths, qty, b),
    ensures
        a == b,
{
    if a < b {
        assert(ths[a].key < ths[b].key);
    } else if b < a {
        assert(ths[b].key < ths[a].key);
    }
}

/// A position that is the best is the one that `best_index` names.
pub proof fn lemma_best_is_index(ths: Seq<Threshold>, qty: int, i: int)
    requires
        is_best(ths, qty, i),
    ensures
        best_index(ths, qty) == Some(i),
{
    let c = choose|c: int| is_best(ths, qty, c);
    lemma_best_unique(ths, qty, c, i);
}

/// `best_index` names a tier exactly when some tier qualifies, and the tier
/// it names is the best.
pub proof fn lemma_best_index_some(ths: Seq<Threshold>, qty: int)
    ensures
        match best_index(ths, qty) {
            Some(i) => is_best(ths, qty, i),
            None => forall|j: int| 0 <= j < ths.len() ==> qty < (#[trigger] ths[j]).need,
        },
    decreases ths.len(),
{
    if best_index(ths, qty) is None {
        if ths.len() > 0 {
            let init = ths.drop_last();
            lemma_best_index_some(init, qty);
            let last = ths.len() - 1;
            match best_index(init, qty) {
                Some(p) => {
                    assert(forall|j: int| 0 <= j < init.len() ==> init[j] == ths[j]);
                    if qty >= ths[last].need && ths[last].key > ths[p].key {
                        assert(is_best(ths, qty, last));
                    } else {
                        assert(is_best(ths, qty, p));
                    }
                },
                None => {
                    assert(forall|j: int| 0 <= j < init.len() ==> init[j] == ths[j]);
                    if qty >= ths[last].need {
                        assert(is_best(ths, qty, last));
                    }
                },
            }
        }
    }
}

/// Raising the quantity never loses a tier and never selects one with a
/// smaller key.
pub proof fn lemma_best_index_monotonic(ths: Seq<Threshold>, lower: int, higher: int)
    requires
        lower <= higher,
        best_index(ths, lower) is Some,
    ensures
        best_index(ths, higher) is Some,
        ths[best_index(ths, higher).unwrap()].key >= ths[best_index(ths, lower).unwrap()].key,
{
    lemma_best_index_some(ths, lower);
    lemma_best_index_some(ths, higher);
    let i = best_index(ths, lower).unwrap();
    assert(higher >= ths[i].need);
}

/// A position in a vector, as a mathematical integer.
pub open spec fn position(r: Option<usize>) -> Option<int> {
    match r {
        Some(i) => Some(i as int),
        None => None,
    }
}

/// The thresholds of volume tiers: a tier needs its `qty` and is ranked by it.
pub open spec fn volume_thresholds(tiers: Seq<VolumeTier>) -> Seq<Threshold> {
    Seq::new(tiers.len(), |i: int| Threshold { need: tiers[i].qty as int, key: tiers[i].qty as int })
}

/// What a combo tier with these numbers needs: the buy quantity, and the
/// reward on top of it where buy and reward are the same product.
pub open spec fn combo_need(same_product: bool, min_quantity: int, max_reward: int) -> int {
    if same_product {
        min_quantity + max_reward
    } else {
        min_quantity
    }
}

/// The thresholds of combo tiers, ranked by `min_quantity`.
pub open spec fn combo_thresholds(tiers: Seq<Tier>, same_product: bool) -> Seq<Threshold> {
    Seq::new(
        tiers.len(),
        |i: int|
            Threshold {
                need: combo_need(same_product, tiers[i].min_quantity as int, tiers[i].max_reward as int),
                key: tiers[i].min_quantity as int,
            },
    )
}

/// The best volume tier for a total quantity.
pub fn best_volume_tier(tiers: &Vec<VolumeTier>, total: i128) -> (r: Option<usize>)
    ensures
        r is Some ==> r.unwrap() < tiers@.len(),
        position(r) == best_index(volume_thresholds(tiers@), total as int),
{
    let ghost ths = volume_thresholds(tiers@);
    let mut best: Option<usize> = None;
    let mut i: usize = 0;
    while i < tiers.len()
        invariant
            i <= tiers@.len(),
            ths == volume_thresholds(tiers@),
            match best {
                Some(b) => b < i && is_best(ths.take(i as int), total as int, b as int),
                None => forall|j: int| 0 <= j < i ==> total < (#[trigger] ths[j]).need,
            },
        decreases tiers@.len() - i,
    {
        let tier = tiers[i];
        let ghost before = ths.take(i as int);
        let ghost after = ths.take(i + 1);
        assert(forall|j: int| 0 <= j < i ==> before[j] == after[j]);
        assert(after[i as int] == ths[i as int]);
        if total >= tier.qty as i128 {
            match best {
                Some(b) => {
                    if tier.qty > tiers[b].qty {
                        best = Some(i);
                        assert(is_best(after, total as int, i as int));
                    } else {
                        assert(is_best(after, total as int, b as int));
                    }
                },
                None => {
                    best = Some(i);
                    assert(is_best(after, total as int, i as int));
                },
            }
        } else {
            match best {
                Some(b) => {
                    assert(is_best(after, total as int, b as int));
                },
                None => {},
            }
        }
        i += 1;
    }
    proof {
        assert(ths.take(i as int) =~= ths);
        match best {
            Some(b) => {
                lemma_best_is_index(ths, total as int, b as int);
            },
            None => {
                assert(forall|j: int| !is_best(ths, total as int, j));
            },
        }
    }
    best
}

/// The best combo tier for a buy quantity.
pub fn best_combo_tier(tiers: &Vec<Tier>, same_product: bool, buy_quantity: i128) -> (r: Option<usize>)
    ensures
        r is Some ==> r.unwrap() < tiers@.len(),
        position(r) == best_index(
            combo_thresholds(tiers@, same_product),
            buy_quantity as int,
        ),
{
    let ghost ths = combo_thresholds(tiers@, same_product);
    let mut best: Option<usize> = None;
    let mut i: usize = 0;
    while i < tiers.len()
        invariant
            i <= tiers@.len(),
            ths == combo_thresholds(tiers@, same_product),
            match best {
                Some(b) => b < i && is_best(ths.take(i as int), buy_quantity as int, b as int),
                None => forall|j: int| 0 <= j < i ==> buy_quantity < (#[trigger] ths[j]).need,
            },
        decreases tiers@.len() - i,
    {
        let tier = tiers[i];
        let ghost before = ths.take(i as int);
        let ghost after = ths.take(i + 1);
        assert(forall|j: int| 0 <= j < i ==> before[j] == after[j]);
        assert(after[i as int] == ths[i as int]);
        let need: i128 = if same_product {
            tier.min_quantity as i128 + tier.max_reward as i128
        } else {
            tier.min_quantity as i128
        };
        if buy_quantity >= need {
            match best {
                Some(b) => {
                    if tier.min_quantity > tiers[b].min_quantity {
                        best = Some(i);
                        assert(is_best(after, buy_quantity as int, i as int));
                    } else {
                        assert(is_best(after, buy_quantity as int, b as int));
                    }
                },
                None => {
                    best = Some(i);
                    assert(is_best(after, buy_quantity as int, i as int));
                },
            }
        } else {
            match best {
                Some(b) => {
                    assert(is_best(after, buy_quantity as int, b as int));
                },
                None => {},
            }
        }
        i += 1;
    }
    proof {
        assert(ths.take(i as int) =~= ths);
        match best {
            Some(b) => {
                lemma_best_is_index(ths, buy_quantity as int, b as int);
            },
            None => {
                assert(forall|j: int| !is_best(ths, buy_quantity as int, j));
            },
        }
    }
    best
}

} // verus!
