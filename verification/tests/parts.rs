use bxgy_discount::allocate::allocate_rewards;
use bxgy_discount::classify::{
    cart_has_product, collect_matches, collection_holds, is_same_product, line_buys, same_text,
    sum_buy_quantity,
};
use bxgy_discount::complement::{
    collect_hits, distinct_rates, find_entry, group_targets, line_hit, Hit,
};
use bxgy_discount::model::{
    ApplicationStrategy, BuyType, CartLine, ClassicPolicy, ComplementProduct, Decimal, Discount,
    DiscountLabel, DiscountType, DiscountValue, Merchandise, RunResult, Target, Tier, VolumeTier,
};
use bxgy_discount::tiers::{best_combo_tier, best_volume_tier};

fn dec(micros: i64) -> Decimal {
    Decimal { micros }
}

fn line(product: &str, variant: &str, quantity: i32) -> CartLine {
    CartLine {
        merchandise: Merchandise::ProductVariant {
            product_id: product.to_string(),
            variant_id: variant.to_string(),
        },
        quantity,
    }
}

fn target(variant: &str, quantity: i32) -> Target {
    Target { variant_id: variant.to_string(), quantity }
}

fn policy(buy_type: BuyType, buy: Option<&str>, ids: Option<Vec<&str>>, get: &str) -> ClassicPolicy {
    ClassicPolicy {
        buy_type,
        buy_product_id: buy.map(|b| b.to_string()),
        buy_collection_ids: ids.map(|v| v.into_iter().map(|s| s.to_string()).collect()),
        min_quantity: 1,
        get_product_id: get.to_string(),
        discount_type: DiscountType::Percentage,
        discount_value: dec(1),
        max_reward: 1,
        tiers: None,
    }
}

#[test]
fn decimal_sign() {
    assert!(dec(1).is_positive());
    assert!(!dec(0).is_positive());
    assert!(!dec(-1).is_positive());
}

#[test]
fn empty_and_single_results() {
    let e = RunResult::empty();
    assert!(e.discounts.is_empty());
    assert_eq!(e.strategy, ApplicationStrategy::First);
    let d = Discount {
        label: DiscountLabel::Volume,
        targets: vec![target("v", 1)],
        value: DiscountValue::Percentage(dec(5)),
    };
    let s = RunResult::single(d.clone());
    assert_eq!(s.discounts, vec![d]);
    assert_eq!(s.strategy, ApplicationStrategy::First);
}

#[test]
fn text_comparison() {
    assert!(same_text(&"abc".to_string(), &"abc".to_string()));
    assert!(!same_text(&"abc".to_string(), &"abd".to_string()));
    assert!(!same_text(&"abc".to_string(), &"ab".to_string()));
}

#[test]
fn product_lookup_in_cart() {
    let cart = vec![line("A", "a1", 1), CartLine { merchandise: Merchandise::Other, quantity: 1 }];
    assert!(cart_has_product(&cart, &"A".to_string()));
    assert!(!cart_has_product(&cart, &"a1".to_string()));
    assert!(!cart_has_product(&vec![], &"A".to_string()));
}

#[test]
fn matches_keep_order_and_sum() {
    let cart = vec![line("A", "a1", 2), line("B", "b1", 7), line("A", "a2", 3)];
    let (targets, total) = collect_matches(&cart, &"A".to_string());
    assert_eq!(targets, vec![target("a1", 2), target("a2", 3)]);
    assert_eq!(total, 5);
    let (none, zero) = collect_matches(&cart, &"C".to_string());
    assert!(none.is_empty());
    assert_eq!(zero, 0);
}

#[test]
fn matches_sum_beyond_i32() {
    let cart = vec![line("A", "a1", i32::MAX), line("A", "a2", i32::MAX), line("A", "a3", 2)];
    let (_, total) = collect_matches(&cart, &"A".to_string());
    assert_eq!(total, 4_294_967_296);
}

#[test]
fn collection_membership() {
    let ids = vec!["A".to_string(), "B".to_string()];
    assert!(collection_holds(&ids, &"B".to_string()));
    assert!(!collection_holds(&ids, &"C".to_string()));
    assert!(!collection_holds(&vec![], &"A".to_string()));
}

#[test]
fn buy_matching() {
    let by_product = policy(BuyType::Product, Some("A"), Some(vec!["B"]), "G");
    assert!(line_buys(&by_product, &line("A", "a1", 1)));
    assert!(!line_buys(&by_product, &line("B", "b1", 1)));
    let by_collection = policy(BuyType::Collection, Some("A"), Some(vec!["B"]), "G");
    assert!(!line_buys(&by_collection, &line("A", "a1", 1)));
    assert!(line_buys(&by_collection, &line("B", "b1", 1)));
    let other = CartLine { merchandise: Merchandise::Other, quantity: 1 };
    assert!(!line_buys(&by_product, &other));
    let cart = vec![line("A", "a1", 2), line("B", "b1", 5), line("A", "a2", 4), other];
    assert_eq!(sum_buy_quantity(&cart, &by_product), 6);
    assert_eq!(sum_buy_quantity(&cart, &by_collection), 5);
}

#[test]
fn same_product_flag() {
    assert!(is_same_product(&policy(BuyType::Product, Some("A"), None, "A")));
    assert!(is_same_product(&policy(BuyType::Collection, Some("A"), None, "A")));
    assert!(!is_same_product(&policy(BuyType::Product, Some("A"), None, "B")));
    assert!(!is_same_product(&policy(BuyType::Product, None, None, "A")));
}

#[test]
fn volume_tier_choice() {
    let tiers = vec![
        VolumeTier { qty: 5, discount_pct: dec(1) },
        VolumeTier { qty: 3, discount_pct: dec(2) },
        VolumeTier { qty: 5, discount_pct: dec(3) },
    ];
    assert_eq!(best_volume_tier(&tiers, 2), None);
    assert_eq!(best_volume_tier(&tiers, 3), Some(1));
    assert_eq!(best_volume_tier(&tiers, 4), Some(1));
    assert_eq!(best_volume_tier(&tiers, 5), Some(0));
    assert_eq!(best_volume_tier(&vec![], 5), None);
}

#[test]
fn combo_tier_choice() {
    let tiers = vec![
        Tier { min_quantity: 2, max_reward: 3, discount_value: dec(1) },
        Tier { min_quantity: 4, max_reward: 1, discount_value: dec(2) },
    ];
    assert_eq!(best_combo_tier(&tiers, false, 1), None);
    assert_eq!(best_combo_tier(&tiers, false, 2), Some(0));
    assert_eq!(best_combo_tier(&tiers, false, 4), Some(1));
    assert_eq!(best_combo_tier(&tiers, true, 4), None);
    assert_eq!(best_combo_tier(&tiers, true, 5), Some(1));
    let big = vec![Tier { min_quantity: i32::MAX, max_reward: i32::MAX, discount_value: dec(1) }];
    assert_eq!(best_combo_tier(&big, true, 4_294_967_293), None);
    assert_eq!(best_combo_tier(&big, true, 4_294_967_294), Some(0));
}

#[test]
fn allocation_caps_by_line_and_pool() {
    let candidates = vec![target("a", 2), target("b", 0), target("c", 5), target("d", 1)];
    assert_eq!(allocate_rewards(&candidates, 4), vec![target("a", 2), target("c", 2)]);
    assert_eq!(allocate_rewards(&candidates, 1), vec![target("a", 1)]);
    assert_eq!(
        allocate_rewards(&candidates, 100),
        vec![target("a", 2), target("c", 5), target("d", 1)]
    );
    assert!(allocate_rewards(&candidates, 0).is_empty());
    assert!(allocate_rewards(&candidates, -1).is_empty());
    assert!(allocate_rewards(&vec![], 3).is_empty());
    for pool in 0..10 {
        let out = allocate_rewards(&candidates, pool);
        let sum: i128 = out.iter().map(|t| t.quantity as i128).sum();
        assert_eq!(sum, pool.min(8));
    }
}

#[test]
fn complement_entry_lookup() {
    let products = vec![
        ComplementProduct { product_id: "P".to_string(), discount_pct: dec(1), quantity: 1 },
        ComplementProduct { product_id: "Q".to_string(), discount_pct: dec(2), quantity: 1 },
        ComplementProduct { product_id: "P".to_string(), discount_pct: dec(3), quantity: 1 },
    ];
    assert_eq!(find_entry(&products, &"P".to_string()), Some(2));
    assert_eq!(find_entry(&products, &"Q".to_string()), Some(1));
    assert_eq!(find_entry(&products, &"R".to_string()), None);
}

#[test]
fn complement_hits() {
    let products = vec![
        ComplementProduct { product_id: "P".to_string(), discount_pct: dec(10), quantity: 2 },
        ComplementProduct { product_id: "Q".to_string(), discount_pct: dec(0), quantity: 2 },
        ComplementProduct { product_id: "R".to_string(), discount_pct: dec(20), quantity: -4 },
    ];
    assert_eq!(
        line_hit(&line("P", "p1", 3), &products),
        Some(Hit { pct: dec(10), target: target("p1", 2) })
    );
    assert_eq!(
        line_hit(&line("P", "p1", 1), &products),
        Some(Hit { pct: dec(10), target: target("p1", 1) })
    );
    assert_eq!(line_hit(&line("Q", "q1", 3), &products), None);
    assert_eq!(
        line_hit(&line("R", "r1", 3), &products),
        Some(Hit { pct: dec(20), target: target("r1", 1) })
    );
    assert_eq!(line_hit(&line("Z", "z1", 3), &products), None);
    let other = CartLine { merchandise: Merchandise::Other, quantity: 1 };
    assert_eq!(line_hit(&other, &products), None);
    let cart = vec![line("R", "r1", 3), line("Q", "q1", 1), line("P", "p1", 9), line("R", "r2", 1)];
    let found = collect_hits(&cart, &products);
    assert_eq!(found.len(), 3);
    assert_eq!(distinct_rates(&found), vec![dec(20), dec(10)]);
    assert_eq!(group_targets(&found, dec(20)), vec![target("r1", 1), target("r2", 1)]);
    assert_eq!(group_targets(&found, dec(10)), vec![target("p1", 2)]);
    assert!(group_targets(&found, dec(30)).is_empty());
}
