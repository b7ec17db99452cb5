//! From the decoded configuration to a policy of exactly one strategy.

use vstd::prelude::*;
use crate::model::{
    BuyType, ClassicPolicy, ComplementPolicy, DiscountType, Policy, RawConfig, VolumePolicy,
};
use crate::classify::same_text;

verus! {

/// The buy type that a configured word names.
pub open spec fn buy_type_named(word: Seq<char>) -> Option<BuyType> {
    if word == "product"@ {
        Some(BuyType::Product)
    } else if word == "collection"@ {
        Some(BuyType::Collection)
    } else {
        None
    }
}

/// The discount type that a configured word names.
pub open spec fn discount_type_named(word: Seq<char>) -> Option<DiscountType> {
    if word == "percentage"@ {
        Some(DiscountType::Percentage)
    } else if word == "fixed"@ {
        Some(DiscountType::Fixed)
    } else {
        None
    }
}

/// Whether the configuration asks for bundling: complements are configured
/// and there is at least one.
pub open spec fn complement_applies(config: RawConfig) -> bool {
    match config.complement_products {
        Some(products) => products@.len() > 0,
        None => false,
    }
}

/// Whether the configuration asks for volume pricing: bundling does not
/// apply and volume tiers are configured.
pub open spec fn volume_applies(config: RawConfig) -> bool {
    !complement_applies(config) && config.volume_tiers is Some
}

/// The policy of a configuration. Bundling comes before volume pricing, and
/// both before the classic strategy, which alone reads the buy type and the
/// discount type and is refused where either is not a known word.
pub open spec fn normalized(config: RawConfig) -> Option<Policy> {
    if complement_applies(config) {
        Some(
            Policy::Complement(
                ComplementPolicy {
                    products: config.complement_products->0,
                    trigger_product_id: config.trigger_product_id,
                },
            ),
        )
    } else if config.volume_tiers is Some {
        Some(
            Policy::Volume(
                VolumePolicy {
                    product_id: match config.buy_product_id {
                        Some(b) => b,
                        None => config.get_product_id,
                    },
                    tiers: config.volume_tiers->0,
                },
            ),
        )
    } else {
        match (buy_type_named(config.buy_type@), discount_type_named(config.discount_type@)) {
            (Some(buy_type), Some(discount_type)) => Some(
                Policy::Classic(
                    ClassicPolicy {
                        buy_type,
                        buy_product_id: config.buy_product_id,
                        buy_collection_ids: config.buy_collection_ids,
                        min_quantity: config.min_quantity,
                        get_product_id: config.get_product_id,
                        discount_type,
                        discount_value: config.discount_value,
                        max_reward: config.max_reward,
                        tiers: config.tiers,
                    },
                ),
            ),
            _ => None,
        }
    }
}

/// Reads a buy type.
pub fn parse_buy_type(word: &String) -> (r: Option<BuyType>)
    ensures
        r == buy_type_named(word@),
{
    if same_text(word, &"product".to_owned()) {
        Some(BuyType::Product)
    } else if same_text(word, &"collection".to_owned()) {
        Some(BuyType::Collection)
    } else {
        None
    }
}

/// Reads a discount type.
pub fn parse_discount_type(word: &String) -> (r: Option<DiscountType>)
    ensures
        r == discount_type_named(word@),
{
    if same_text(word, &"percentage".to_owned()) {
        Some(DiscountType::Percentage)
    } else if same_text(word, &"fixed".to_owned()) {
        Some(DiscountType::Fixed)
    } else {
        None
    }
}

/// Picks the one strategy that the configuration asks for, or none where the
/// classic strategy is left and its words are not known.
pub fn normalize(config: RawConfig) -> (r: Option<Policy>)
    ensures
        r == normalized(config),
{
    let RawConfig {
        buy_type,
        buy_product_id,
        buy_collection_ids,
        min_quantity,
        get_product_id,
        discount_type,
        discount_value,
        max_reward,
        tiers,
        volume_tiers,
        complement_products,
        trigger_product_id,
    } = config;
    match complement_products {
        Some(products) => {
            if products.len() > 0 {
                return Some(Policy::Complement(ComplementPolicy { products, trigger_product_id }));
            }
        },
        None => {},
    }
    match volume_tiers {
        Some(tiers) => {
            let product_id = match buy_product_id {
                Some(b) => b,
                None => get_product_id,
            };
            return Some(Policy::Volume(VolumePolicy { product_id, tiers }));
        },
        None => {},
    }
    let buy = parse_buy_type(&buy_type);
    let kind = parse_discount_type(&discount_type);
    match (buy, kind) {
        (Some(buy_type), Some(discount_type)) => Some(
            Policy::Classic(
                ClassicPolicy {
                    buy_type,
                    buy_product_id,
                    buy_collection_ids,
                    min_quantity,
                    get_product_id,
                    discount_type,
                    discount_value,
                    max_reward,
                    tiers,
                },
            ),
        ),
        _ => None,
    }
}

} // verus!
