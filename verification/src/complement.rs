//! Frequently-bought-together bundling: complement lines, grouped by rate.

use vstd::prelude::*;
use crate::model::{
    ApplicationStrategy, CartLine, ComplementPolicy, ComplementProduct, Decimal, Discount,
    DiscountLabel, DiscountValue, DiscountView, Merchandise, RunResult, RunResultView, Target,
    empty_result,
};
use crate::classify::{cart_has_product, has_product, same_text};

verus! {

/// A complement line found in the cart: its rate and its capped target.
#[derive(Clone, Debug, PartialEq, Eq)]
pub struct Hit {
    pub pct: Decimal,
    pub target: Target,
}

/// The entry that configures product `pid`: the last one that names it.
pub open spec fn entry_for(products: Seq<ComplementProduct>, pid: Seq<char>) -> Option<int>
    decreases products.len(),
{
    if products.len() == 0 {
        None
    } else if products.last().product_id@ == pid {
        Some(products.len() - 1)
    } else {
        entry_for(products.drop_last(), pid)
    }
}

/// The units of a complement that may be discounted per line: what was
/// configured, and one where that is less than one.
pub open spec fn unit_cap(entry: ComplementProduct) -> int {
    if entry.quantity >= 1 {
        entry.quantity as int
    } else {
        1
    }
}

/// The smaller of a line's quantity and the cap.
pub open spec fn capped(quantity: int, cap: int) -> int {
    if quantity <= cap {
        quantity
    } else {
        cap
    }
}

/// What the line contributes: a hit where it is a variant of a configured
/// complement whose rate is positive.
pub open spec fn hit_of(line: CartLine, products: Seq<ComplementProduct>) -> Option<Hit> {
    match line.merchandise {
        Merchandise::ProductVariant { product_id, variant_id } => match entry_for(products, product_id@) {
            Some(e) => if products[e].discount_pct.positive() {
                Some(
                    Hit {
                        pct: products[e].discount_pct,
                        target: Target {
                            variant_id,
                            quantity: capped(line.quantity as int, unit_cap(products[e])) as i32,
                        },
                    },
                )
            } else {
                None
            },
            None => None,
        },
        Merchandise::Other => None,
    }
}

/// The hits of the cart, in cart order.
pub open spec fn hits(cart: Seq<CartLine>, products: Seq<ComplementProduct>) -> Seq<Hit>
    decreases cart.len(),
{
    if cart.len() == 0 {
        Seq::empty()
    } else {
        let before = hits(cart.drop_last(), products);
        match hit_of(cart.last(), products) {
            Some(h) => before.push(h),
            None => before,
        }
    }
}

/// Whether `pct` is the rate of one of `found`.
pub open spec fn has_rate(found: Seq<Hit>, pct: Decimal) -> bool {
    exists|i: int| 0 <= i < found.len() && (#[trigger] found[i]).pct == pct
}

/// The distinct rates of `found`, each at the place of its first hit.
pub open spec fn rates(found: Seq<Hit>) -> Seq<Decimal>
    decreases found.len(),
{
    if found.len() == 0 {
        Seq::empty()
    } else {
        let before = rates(found.drop_last());
        if has_rate(found.drop_last(), found.last().pct) {
            before
        } else {
            before.push(found.last().pct)
        }
    }
}

/// The targets of the hits whose rate is `pct`, in cart order.
pub open spec fn targets_at(found: Seq<Hit>, pct: Decimal) -> Seq<Target>
    decreases found.len(),
{
    if found.len() == 0 {
        Seq::empty()
    } else {
        let before = targets_at(found.drop_last(), pct);
        if found.last().pct == pct {
            before.push(found.last().target)
        } else {
            before
        }
    }
}

/// The discount of one rate.
pub open spec fn group_discount(found: Seq<Hit>, pct: Decimal) -> DiscountView {
    DiscountView {
        label: DiscountLabel::Complement(pct),
        targets: targets_at(found, pct),
        value: DiscountValue::Percentage(pct),
    }
}

/// Whether the policy asks for a trigger product that the cart lacks.
pub open spec fn trigger_missing(cart: Seq<CartLine>, policy: ComplementPolicy) -> bool {
    match policy.trigger_product_id {
        Some(t) => t@.len() > 0 && !has_product(cart, t@),
        None => false,
    }
}

/// What the bundling strategy returns: nothing where the trigger is missing
/// or no line is a hit; else one discount per distinct rate, all of which apply.
pub open spec fn complement_result(cart: Seq<CartLine>, policy: ComplementPolicy) -> RunResultView {
    let found = hits(cart, policy.products@);
    if trigger_missing(cart, policy) || found.len() == 0 {
        empty_result()
    } else {
        RunResultView {
            discounts: Seq::new(rates(found).len(), |k: int| group_discount(found, rates(found)[k])),
            strategy: ApplicationStrategy::All,
        }
    }
}

/// A rate is listed exactly when some hit has it.
pub proof fn lemma_rate_listed(found: Seq<Hit>, pct: Decimal)
    ensures
        rates(found).contains(pct) <==> has_rate(found, pct),
    decreases found.len(),
{
    if found.len() > 0 {
        let init = found.drop_last();
        let last = found.len() - 1;
        lemma_rate_listed(init, pct);
        lemma_rate_listed(init, found[last].pct);
        if has_rate(found, pct) {
            let i = choose|i: int| 0 <= i < found.len() && (#[trigger] found[i]).pct == pct;
            if i < last {
                assert(init[i].pct == pct);
                assert(has_rate(init, pct));
            }
            if has_rate(init, pct) {
                let k = choose|k: int| 0 <= k < rates(init).len() && rates(init)[k] == pct;
                assert(rates(found)[k] == pct);
            } else {
                assert(rates(found)[rates(found).len() - 1] == pct);
            }
        }
        if rates(found).contains(pct) {
            let k = choose|k: int| 0 <= k < rates(found).len() && rates(found)[k] == pct;
            if k < rates(init).len() {
                assert(rates(init)[k] == pct);
                assert(rates(init).contains(pct));
                let i = choose|i: int| 0 <= i < init.len() && (#[trigger] init[i]).pct == pct;
                assert(found[i].pct == pct);
            } else {
                assert(found[last].pct == pct);
            }
        }
    }
}

/// No rate is listed twice.
pub proof fn lemma_rates_distinct(found: Seq<Hit>, a: int, b: int)
    requires
        0 <= a < b < rates(found).len(),
    ensures
        rates(found)[a] != rates(found)[b],
    decreases found.len(),
{
    if found.len() > 0 {
        let init = found.drop_last();
        if b < rates(init).len() {
            lemma_rates_distinct(init, a, b);
        } else {
            lemma_rate_listed(init, rates(found)[a]);
            assert(rates(init)[a] == rates(found)[a]);
            assert(rates(init).contains(rates(found)[a]));
        }
    }
}

/// Every discount of a rate that is listed has a target.
pub proof fn lemma_group_not_empty(found: Seq<Hit>, pct: Decimal)
    requires
        has_rate(found, pct),
    ensures
        targets_at(found, pct).len() > 0,
    decreases found.len(),
{
    if found.len() > 0 {
        let init = found.drop_last();
        if found.last().pct != pct {
            let i = choose|i: int| 0 <= i < found.len() && (#[trigger] found[i]).pct == pct;
            assert(init[i].pct == pct);
            lemma_group_not_empty(init, pct);
        }
    }
}

/// The entry found for a product names it, and no later entry does; none is
/// found only where no entry names the product.
pub proof fn lemma_entry_is_last(products: Seq<ComplementProduct>, pid: Seq<char>)
    ensures
        match entry_for(products, pid) {
            Some(e) => 0 <= e < products.len() && products[e].product_id@ == pid && forall|j: int|
                e < j < products.len() ==> (#[trigger] products[j]).product_id@ != pid,
            None => forall|j: int| 0 <= j < products.len() ==> (#[trigger] products[j]).product_id@ != pid,
        },
    decreases products.len(),
{
    if products.len() > 0 && products.last().product_id@ != pid {
        let init = products.drop_last();
        lemma_entry_is_last(init, pid);
        assert(forall|j: int| 0 <= j < init.len() ==> init[j] == products[j]);
    }
}

/// A hit names its line's variant and takes no more units than the line has.
pub proof fn lemma_hit_within_line(line: CartLine, products: Seq<ComplementProduct>)
    requires
        hit_of(line, products) is Some,
    ensures
        line.merchandise is ProductVariant,
        hit_of(line, products)->0.target.variant_id == line.merchandise->variant_id,
        hit_of(line, products)->0.target.quantity <= line.quantity,
        hit_of(line, products)->0.pct.positive(),
{
    lemma_entry_is_last(products, line.merchandise->product_id@);
}

/// Every hit is the hit of a line of the cart.
pub proof fn lemma_hits_from_lines(cart: Seq<CartLine>, products: Seq<ComplementProduct>, j: int)
    requires
        0 <= j < hits(cart, products).len(),
    ensures
        exists|i: int| 0 <= i < cart.len() && hit_of(#[trigger] cart[i], products) == Some(hits(cart, products)[j]),
    decreases cart.len(),
{
    if cart.len() > 0 {
        let init = cart.drop_last();
        if j < hits(init, products).len() {
            lemma_hits_from_lines(init, products, j);
            let i = choose|i: int|
                0 <= i < init.len() && hit_of(#[trigger] init[i], products) == Some(hits(init, products)[j]);
            assert(cart[i] == init[i]);
        } else {
            assert(hit_of(cart[cart.len() - 1], products) == Some(hits(cart, products)[j]));
        }
    }
}

/// Every target of a rate is the target of a hit.
pub proof fn lemma_group_from_hits(found: Seq<Hit>, pct: Decimal, k: int)
    requires
        0 <= k < targets_at(found, pct).len(),
    ensures
        exists|j: int| 0 <= j < found.len() && (#[trigger] found[j]).target == targets_at(found, pct)[k],
    decreases found.len(),
{
    if found.len() > 0 {
        let init = found.drop_last();
        if k < targets_at(init, pct).len() {
            lemma_group_from_hits(init, pct, k);
            let j = choose|j: int| 0 <= j < init.len() && (#[trigger] init[j]).target == targets_at(init, pct)[k];
            assert(found[j] == init[j]);
        } else {
            assert(found[found.len() - 1].target == targets_at(found, pct)[k]);
        }
    }
}

/// The entry that configures product `pid`, if any.
pub fn find_entry(products: &Vec<ComplementProduct>, pid: &String) -> (r: Option<usize>)
    ensures
        r is Some ==> r.unwrap() < products@.len(),
        crate::tiers::position(r) == entry_for(products@, pid@),
{
    let mut i: usize = products.len();
    assert(products@.take(i as int) =~= products@);
    while i > 0
        invariant
            i <= products@.len(),
            entry_for(products@, pid@) == entry_for(products@.take(i as int), pid@),
        decreases i,
    {
        proof {
            assert(products@.take(i as int).drop_last() =~= products@.take(i - 1));
        }
        i -= 1;
        if same_text(&products[i].product_id, pid) {
            return Some(i);
        }
    }
    None
}

/// What the line contributes to the bundling discounts.
pub fn line_hit(line: &CartLine, products: &Vec<ComplementProduct>) -> (r: Option<Hit>)
    ensures
        r == hit_of(*line, products@),
{
    match &line.merchandise {
        Merchandise::ProductVariant { product_id, variant_id } => match find_entry(products, product_id) {
            Some(e) => {
                let entry = &products[e];
                if entry.discount_pct.is_positive() {
                    let cap: i32 = if entry.quantity >= 1 {
                        entry.quantity
                    } else {
                        1
                    };
                    let quantity: i32 = if line.quantity <= cap {
                        line.quantity
                    } else {
                        cap
                    };
                    Some(
                        Hit {
                            pct: entry.discount_pct,
                            target: Target { variant_id: variant_id.clone(), quantity },
                        },
                    )
                } else {
                    None
                }
            },
            None => None,
        },
        Merchandise::Other => None,
    }
}

/// The hits of the cart, in cart order.
pub fn collect_hits(cart: &Vec<CartLine>, products: &Vec<ComplementProduct>) -> (found: Vec<Hit>)
    ensures
        found@ == hits(cart@, products@),
{
    let mut found: Vec<Hit> = Vec::new();
    let mut i: usize = 0;
    while i < cart.len()
        invariant
            i <= cart@.len(),
            found@ == hits(cart@.take(i as int), products@),
        decreases cart@.len() - i,
    {
        proof {
            assert(cart@.take(i + 1).drop_last() =~= cart@.take(i as int));
        }
        match line_hit(&cart[i], products) {
            Some(h) => {
                found.push(h);
            },
            None => {},
        }
        i += 1;
    }
    assert(cart@.take(i as int) =~= cart@);
    found
}

/// Whether `pct` is the rate of one of the first `n` hits.
fn rate_seen(found: &Vec<Hit>, n: usize, pct: Decimal) -> (r: bool)
    requires
        n <= found@.len(),
    ensures
        r == has_rate(found@.take(n as int), pct),
{
    let mut j: usize = 0;
    while j < n
        invariant
            j <= n <= found@.len(),
            forall|k: int| 0 <= k < j ==> (#[trigger] found@[k]).pct != pct,
        decreases n - j,
    {
        if found[j].pct.micros == pct.micros {
            assert(found@.take(n as int)[j as int].pct == pct);
            return true;
        }
        j += 1;
    }
    assert forall|k: int| 0 <= k < n implies (#[trigger] found@.take(n as int)[k]).pct != pct by {
        assert(found@.take(n as int)[k] == found@[k]);
    }
    false
}

/// The distinct rates of `found`, each at the place of its first hit.
pub fn distinct_rates(found: &Vec<Hit>) -> (r: Vec<Decimal>)
    ensures
        r@ == rates(found@),
{
    let mut r: Vec<Decimal> = Vec::new();
    let mut i: usize = 0;
    while i < found.len()
        invariant
            i <= found@.len(),
            r@ == rates(found@.take(i as int)),
        decreases found@.len() - i,
    {
        proof {
            assert(found@.take(i + 1).drop_last() =~= found@.take(i as int));
        }
        let pct = found[i].pct;
        if !rate_seen(found, i, pct) {
            r.push(pct);
        }
        i += 1;
    }
    assert(found@.take(i as int) =~= found@);
    r
}

/// The targets of the hits whose rate is `pct`, in cart order.
pub fn group_targets(found: &Vec<Hit>, pct: Decimal) -> (r: Vec<Target>)
    ensures
        r@ == targets_at(found@, pct),
{
    let mut r: Vec<Target> = Vec::new();
    let mut i: usize = 0;
    while i < found.len()
        invariant
            i <= found@.len(),
            r@ == targets_at(found@.take(i as int), pct),
        decreases found@.len() - i,
    {
        proof {
            assert(found@.take(i + 1).drop_last() =~= found@.take(i as int));
        }
        if found[i].pct.micros == pct.micros {
            let hit = &found[i];
            r.push(Target { variant_id: hit.target.variant_id.clone(), quantity: hit.target.quantity });
        }
        i += 1;
    }
    assert(found@.take(i as int) =~= found@);
    r
}

/// Applies the bundling strategy to the cart.
pub fn apply_complement(cart: &Vec<CartLine>, policy: &ComplementPolicy) -> (r: RunResult)
    ensures
        r@ == complement_result(cart@, *policy),
{
    match &policy.trigger_product_id {
        Some(t) => {
            if !t.as_str().is_empty() && !cart_has_product(cart, t) {
                return RunResult::empty();
            }
        },
        None => {},
    }
    let found = collect_hits(cart, &policy.products);
    if found.len() == 0 {
        return RunResult::empty();
    }
    let listed = distinct_rates(&found);
    let mut discounts: Vec<Discount> = Vec::new();
    let mut k: usize = 0;
    while k < listed.len()
        invariant
            k <= listed@.len(),
            listed@ == rates(found@),
            discounts@.len() == k,
            forall|j: int| 0 <= j < k ==> (#[trigger] discounts@[j])@ == group_discount(found@, listed@[j]),
        decreases listed@.len() - k,
    {
        let pct = listed[k];
        let targets = group_targets(&found, pct);
        discounts.push(
            Discount {
                label: DiscountLabel::Complement(pct),
                targets,
                value: DiscountValue::Percentage(pct),
            },
        );
        k += 1;
    }
    let r = RunResult { discounts, strategy: ApplicationStrategy::All };
    assert(r@.discounts =~= complement_result(cart@, *policy).discounts);
    r
}

} // verus!
