//! The evaluation: one strategy is chosen and applied to the cart.

use vstd::prelude::*;
use crate::model::{
    CartLine, ClassicPolicy, Decimal, Discount, DiscountLabel, DiscountType, DiscountValue,
    DiscountView, Policy, RawConfig, RunResult, RunResultView, Target, Tier, VolumePolicy,
    empty_result, single_result,
};
use crate::tiers::{
    best_combo_tier, best_index, best_volume_tier, combo_need, combo_thresholds,
    lemma_best_index_monotonic, lemma_best_index_some, volume_thresholds,
};
use crate::classify::{
    buy_quantity, collect_matches, is_line_of, is_same_product, lemma_matched_lines_are_lines,
    matched_lines, same_product, sum_buy_quantity, total_quantity, whole_line,
};
use crate::allocate::{
    allocate, allocate_rewards, draws_on, lemma_allocate_total, lemma_allocate_within_lines,
    max_discountable,
};
use crate::complement::{
    apply_complement, complement_result, hit_of, hits, lemma_group_from_hits,
    lemma_group_not_empty, lemma_hits_from_lines, lemma_rate_listed, rates,
};
use crate::policy::{complement_applies, normalize, normalized, volume_applies};

verus! {

/// What volume pricing returns: the best tier for the total quantity of the
/// product's lines decides the rate, and every unit of every such line is
/// discounted. Nothing where no tier qualifies, the rate is not positive or
/// the cart has no such line.
pub open spec fn volume_result(cart: Seq<CartLine>, policy: VolumePolicy) -> RunResultView {
    let targets = matched_lines(cart, policy.product_id@);
    match best_index(volume_thresholds(policy.tiers@), total_quantity(targets)) {
        Some(i) => if policy.tiers@[i].discount_pct.positive() && targets.len() > 0 {
            single_result(
                DiscountView {
                    label: DiscountLabel::Volume,
                    targets,
                    value: DiscountValue::Percentage(policy.tiers@[i].discount_pct),
                },
            )
        } else {
            empty_result()
        },
        None => empty_result(),
    }
}

/// The terms that hold for a buy quantity: those of the best qualifying
/// tier where tiers are configured, else the policy's own where the buy
/// quantity meets them.
pub open spec fn resolved_terms(policy: ClassicPolicy, buy: int) -> Option<Tier> {
    match policy.tiers {
        Some(tiers) => match best_index(combo_thresholds(tiers@, same_product(policy)), buy) {
            Some(i) => Some(tiers@[i]),
            None => None,
        },
        None => if buy >= combo_need(
            same_product(policy),
            policy.min_quantity as int,
            policy.max_reward as int,
        ) {
            Some(
                Tier {
                    min_quantity: policy.min_quantity,
                    max_reward: policy.max_reward,
                    discount_value: policy.discount_value,
                },
            )
        } else {
            None
        },
    }
}

/// The value of a discount of the given type.
pub open spec fn value_of(discount_type: DiscountType, amount: Decimal) -> DiscountValue {
    match discount_type {
        DiscountType::Percentage => DiscountValue::Percentage(amount),
        DiscountType::Fixed => DiscountValue::FixedAmount(amount),
    }
}

/// The units that the classic strategy may discount under `terms`.
pub open spec fn reward_pool(policy: ClassicPolicy, terms: Tier, buy: int) -> int {
    max_discountable(same_product(policy), terms.max_reward as int, buy, terms.min_quantity as int)
}

/// The targets of the classic strategy: the reward pool of the resolved
/// terms, handed out to the lines of the reward product. None where no terms
/// hold.
pub open spec fn classic_targets(cart: Seq<CartLine>, policy: ClassicPolicy) -> Seq<Target> {
    let buy = buy_quantity(cart, policy);
    match resolved_terms(policy, buy) {
        Some(terms) => allocate(
            matched_lines(cart, policy.get_product_id@),
            reward_pool(policy, terms, buy),
        ),
        None => Seq::empty(),
    }
}

/// What the classic strategy returns: one discount on its targets, with the
/// value of the resolved terms. Nothing where no line receives a unit.
pub open spec fn classic_result(cart: Seq<CartLine>, policy: ClassicPolicy) -> RunResultView {
    let targets = classic_targets(cart, policy);
    if targets.len() > 0 {
        single_result(
            DiscountView {
                label: DiscountLabel::Bundle,
                targets,
                value: value_of(
                    policy.discount_type,
                    resolved_terms(policy, buy_quantity(cart, policy))->0.discount_value,
                ),
            },
        )
    } else {
        empty_result()
    }
}

/// What a policy returns on a cart.
pub open spec fn policy_result(cart: Seq<CartLine>, policy: Policy) -> RunResultView {
    match policy {
        Policy::Complement(p) => complement_result(cart, p),
        Policy::Volume(p) => volume_result(cart, p),
        Policy::Classic(p) => classic_result(cart, p),
    }
}

/// What an evaluation returns: the result of the configuration's policy, and
/// the empty result where there is no configuration or no policy.
pub open spec fn evaluation(cart: Seq<CartLine>, config: Option<RawConfig>) -> RunResultView {
    match config {
        Some(c) => match normalized(c) {
            Some(policy) => policy_result(cart, policy),
            None => empty_result(),
        },
        None => empty_result(),
    }
}

/// Applies volume pricing to the cart.
pub fn apply_volume(cart: &Vec<CartLine>, policy: &VolumePolicy) -> (r: RunResult)
    ensures
        r@ == volume_result(cart@, *policy),
{
    let (targets, total) = collect_matches(cart, &policy.product_id);
    match best_volume_tier(&policy.tiers, total) {
        Some(i) => {
            let pct = policy.tiers[i].discount_pct;
            if pct.is_positive() && targets.len() > 0 {
                RunResult::single(
                    Discount {
                        label: DiscountLabel::Volume,
                        targets,
                        value: DiscountValue::Percentage(pct),
                    },
                )
            } else {
                RunResult::empty()
            }
        },
        None => RunResult::empty(),
    }
}

/// The terms that hold for a buy quantity, if any.
pub fn resolve_terms(policy: &ClassicPolicy, buy: i128) -> (r: Option<Tier>)
    ensures
        r == resolved_terms(*policy, buy as int),
{
    let same = is_same_product(policy);
    match &policy.tiers {
        Some(tiers) => match best_combo_tier(tiers, same, buy) {
            Some(i) => Some(tiers[i]),
            None => None,
        },
        None => {
            let need: i128 = if same {
                policy.min_quantity as i128 + policy.max_reward as i128
            } else {
                policy.min_quantity as i128
            };
            if buy >= need {
                Some(
                    Tier {
                        min_quantity: policy.min_quantity,
                        max_reward: policy.max_reward,
                        discount_value: policy.discount_value,
                    },
                )
            } else {
                None
            }
        },
    }
}

/// Applies the classic strategy to the cart.
pub fn apply_classic(cart: &Vec<CartLine>, policy: &ClassicPolicy) -> (r: RunResult)
    ensures
        r@ == classic_result(cart@, *policy),
{
    let buy = sum_buy_quantity(cart, policy);
    match resolve_terms(policy, buy) {
        Some(terms) => {
            let (candidates, _) = collect_matches(cart, &policy.get_product_id);
            let same = is_same_product(policy);
            let lines: usize = cart.len();
            assert(lines <= 0xffff_ffff_ffff_ffff);
            let left: i128 = buy - terms.min_quantity as i128;
            let pool: i128 = if same && left < terms.max_reward as i128 {
                left
            } else {
                terms.max_reward as i128
            };
            let targets = allocate_rewards(&candidates, pool);
            if targets.len() > 0 {
                let value = match policy.discount_type {
                    DiscountType::Percentage => DiscountValue::Percentage(terms.discount_value),
                    DiscountType::Fixed => DiscountValue::FixedAmount(terms.discount_value),
                };
                RunResult::single(Discount { label: DiscountLabel::Bundle, targets, value })
            } else {
                RunResult::empty()
            }
        },
        None => RunResult::empty(),
    }
}

/// Applies a policy to the cart.
pub fn apply_policy(cart: &Vec<CartLine>, policy: &Policy) -> (r: RunResult)
    ensures
        r@ == policy_result(cart@, *policy),
{
    match policy {
        Policy::Complement(p) => apply_complement(cart, p),
        Policy::Volume(p) => apply_volume(cart, p),
        Policy::Classic(p) => apply_classic(cart, p),
    }
}

/// Evaluates a configuration against a cart. `None` stands for a
/// configuration that is absent or could not be decoded; the result is then
/// empty, as it is whenever the cart does not qualify.
pub fn evaluate(cart: &Vec<CartLine>, config: Option<RawConfig>) -> (r: RunResult)
    ensures
        r@ == evaluation(cart@, config),
        config is None ==> r@ == empty_result(),
{
    match config {
        Some(c) => match normalize(c) {
            Some(policy) => apply_policy(cart, &policy),
            None => RunResult::empty(),
        },
        None => RunResult::empty(),
    }
}

/// Where bundling applies, nothing but the complements and the trigger
/// product decides the result.
pub proof fn lemma_complement_has_priority(cart: Seq<CartLine>, a: RawConfig, b: RawConfig)
    requires
        complement_applies(a),
        a.complement_products == b.complement_products,
        a.trigger_product_id == b.trigger_product_id,
    ensures
        evaluation(cart, Some(a)) == evaluation(cart, Some(b)),
{
}

/// Where volume pricing applies, nothing but the volume tiers and the two
/// product ids decides the result.
pub proof fn lemma_volume_has_priority(cart: Seq<CartLine>, a: RawConfig, b: RawConfig)
    requires
        volume_applies(a),
        volume_applies(b),
        a.volume_tiers == b.volume_tiers,
        a.buy_product_id == b.buy_product_id,
        a.get_product_id == b.get_product_id,
    ensures
        evaluation(cart, Some(a)) == evaluation(cart, Some(b)),
{
}

/// Two results of one evaluation are the same.
pub proof fn lemma_evaluation_repeats(
    cart: Seq<CartLine>,
    config: Option<RawConfig>,
    first: RunResult,
    second: RunResult,
)
    requires
        first@ == evaluation(cart, config),
        second@ == evaluation(cart, config),
    ensures
        first@ == second@,
{
}

/// Raising the buy quantity never loses the terms and never lowers their
/// `min_quantity`.
pub proof fn lemma_terms_monotonic(policy: ClassicPolicy, lower: int, higher: int)
    requires
        lower <= higher,
        resolved_terms(policy, lower) is Some,
    ensures
        resolved_terms(policy, higher) is Some,
        resolved_terms(policy, higher)->0.min_quantity >= resolved_terms(policy, lower)->0.min_quantity,
{
    match policy.tiers {
        Some(tiers) => {
            lemma_best_index_monotonic(combo_thresholds(tiers@, same_product(policy)), lower, higher);
            lemma_best_index_some(combo_thresholds(tiers@, same_product(policy)), lower);
            lemma_best_index_some(combo_thresholds(tiers@, same_product(policy)), higher);
        },
        None => {},
    }
}

/// Raising the total quantity never loses the volume tier and never lowers
/// its `qty`.
pub proof fn lemma_volume_tier_monotonic(tiers: Seq<crate::model::VolumeTier>, lower: int, higher: int)
    requires
        lower <= higher,
        best_index(volume_thresholds(tiers), lower) is Some,
    ensures
        best_index(volume_thresholds(tiers), higher) is Some,
        tiers[best_index(volume_thresholds(tiers), higher)->0].qty >= tiers[best_index(
            volume_thresholds(tiers),
            lower,
        )->0].qty,
{
    lemma_best_index_monotonic(volume_thresholds(tiers), lower, higher);
    lemma_best_index_some(volume_thresholds(tiers), lower);
    lemma_best_index_some(volume_thresholds(tiers), higher);
}

/// Whether target `t` takes at least one unit, and no more than it has, from
/// some line of the cart that is a variant of product `pid`.
pub open spec fn within_cart(cart: Seq<CartLine>, pid: Seq<char>, t: Target) -> bool {
    exists|whole: Target, i: int| is_line_of(cart, pid, whole, i) && draws_on(t, whole)
}

/// In a classic discount every target takes units from a line of the reward
/// product and no more than that line has; all targets together take no more
/// than `max_reward` of the resolved terms, and, where buy and reward are the
/// same product, no more than the buy quantity less `min_quantity`.
pub proof fn lemma_classic_rewards_bounded(cart: Seq<CartLine>, policy: ClassicPolicy)
    requires
        classic_targets(cart, policy).len() > 0,
    ensures
        resolved_terms(policy, buy_quantity(cart, policy)) is Some,
        forall|k: int|
            0 <= k < classic_targets(cart, policy).len() ==> within_cart(
                cart,
                policy.get_product_id@,
                #[trigger] classic_targets(cart, policy)[k],
            ),
        total_quantity(classic_targets(cart, policy)) <= resolved_terms(
            policy,
            buy_quantity(cart, policy),
        )->0.max_reward,
        same_product(policy) ==> total_quantity(classic_targets(cart, policy)) <= buy_quantity(
            cart,
            policy,
        ) - resolved_terms(policy, buy_quantity(cart, policy))->0.min_quantity,
{
    let buy = buy_quantity(cart, policy);
    let terms = resolved_terms(policy, buy)->0;
    let pid = policy.get_product_id@;
    let candidates = matched_lines(cart, pid);
    let pool = reward_pool(policy, terms, buy);
    let targets = classic_targets(cart, policy);
    assert(targets == allocate(candidates, pool));
    assert forall|k: int| 0 <= k < targets.len() implies within_cart(cart, pid, #[trigger] targets[k])
        && targets[k].quantity > 0 by {
        lemma_allocate_within_lines(candidates, pool, k);
        let c = choose|c: int| 0 <= c < candidates.len() && draws_on(targets[k], #[trigger] candidates[c]);
        lemma_matched_lines_are_lines(cart, pid, c);
        let i = choose|i: int| is_line_of(cart, pid, candidates[c], i);
        assert(is_line_of(cart, pid, candidates[c], i) && draws_on(targets[k], candidates[c]));
    }
    lemma_allocate_total(candidates, pool);
    lemma_total_positive(targets);
}

/// Whether some line of the cart is the variant that `t` names and has at
/// least the units that `t` takes.
pub open spec fn covered(cart: Seq<CartLine>, t: Target) -> bool {
    exists|i: int|
        0 <= i < cart.len() && (#[trigger] whole_line(cart[i])) is Some && whole_line(
            cart[i],
        )->0.variant_id == t.variant_id && t.quantity <= cart[i].quantity
}

/// Whatever the strategy, a target names a variant line of the cart and
/// never takes more units than that line has.
pub proof fn lemma_targets_within_cart(
    cart: Seq<CartLine>,
    config: Option<RawConfig>,
    d: int,
    k: int,
)
    requires
        0 <= d < evaluation(cart, config).discounts.len(),
        0 <= k < evaluation(cart, config).discounts[d].targets.len(),
    ensures
        covered(cart, evaluation(cart, config).discounts[d].targets[k]),
{
    let t = evaluation(cart, config).discounts[d].targets[k];
    match normalized(config->0)->0 {
        Policy::Complement(p) => {
            let found = hits(cart, p.products@);
            let pct = rates(found)[d];
            lemma_group_from_hits(found, pct, k);
            let j = choose|j: int| 0 <= j < found.len() && (#[trigger] found[j]).target == t;
            lemma_hits_from_lines(cart, p.products@, j);
            let i = choose|i: int|
                0 <= i < cart.len() && hit_of(#[trigger] cart[i], p.products@) == Some(found[j]);
            assert(whole_line(cart[i]) is Some);
        },
        Policy::Volume(p) => {
            lemma_matched_lines_are_lines(cart, p.product_id@, k);
            let i = choose|i: int| is_line_of(cart, p.product_id@, t, i);
            assert(whole_line(cart[i]) is Some);
        },
        Policy::Classic(p) => {
            lemma_classic_rewards_bounded(cart, p);
            assert(t == classic_targets(cart, p)[k]);
            assert(within_cart(cart, p.get_product_id@, t));
            let (whole, i) = choose|whole: Target, i: int|
                is_line_of(cart, p.get_product_id@, whole, i) && draws_on(t, whole);
            assert(whole_line(cart[i]) is Some);
        },
    }
}

/// Every discount has a target.
pub proof fn lemma_discounts_have_targets(cart: Seq<CartLine>, config: Option<RawConfig>, d: int)
    requires
        0 <= d < evaluation(cart, config).discounts.len(),
    ensures
        evaluation(cart, config).discounts[d].targets.len() > 0,
{
    match normalized(config->0)->0 {
        Policy::Complement(p) => {
            let found = hits(cart, p.products@);
            lemma_rate_listed(found, rates(found)[d]);
            lemma_group_not_empty(found, rates(found)[d]);
        },
        Policy::Volume(p) => {},
        Policy::Classic(p) => {},
    }
}

/// Targets that each hold at least one unit hold at least one unit together.
proof fn lemma_total_positive(targets: Seq<Target>)
    requires
        targets.len() > 0,
        forall|k: int| 0 <= k < targets.len() ==> (#[trigger] targets[k]).quantity > 0,
    ensures
        total_quantity(targets) > 0,
    decreases targets.len(),
{
    if targets.len() > 1 {
        let init = targets.drop_last();
        assert forall|k: int| 0 <= k < init.len() implies (#[trigger] init[k]).quantity > 0 by {
            assert(init[k] == targets[k]);
        }
        lemma_total_positive(init);
    } else {
        assert(targets.drop_last().len() == 0);
        assert(total_quantity(targets.drop_last()) == 0);
    }
}

} // verus!
