//! The data the engine reads and returns.

use vstd::prelude::*;

verus! {

/// An exact decimal number, held as a count of millionths.
#[derive(Clone, Copy, Debug, PartialEq, Eq)]
pub struct Decimal {
    pub micros: i64,
}

impl Decimal {
    /// Whether the number is greater than zero.
    pub open spec fn positive(self) -> bool {
        self.micros > 0
    }

    /// Whether the number is greater than zero.
    pub fn is_positive(&self) -> (r: bool)
        ensures
            r == self.positive(),
    {
        self.micros > 0
    }
}

/// What a cart line sells. Only product variants take part in discounts.
#[derive(Clone, Debug, PartialEq, Eq)]
pub enum Merchandise {
    ProductVariant { product_id: String, variant_id: String },
    Other,
}

/// One line of the cart snapshot.
#[derive(Clone, Debug, PartialEq, Eq)]
pub struct CartLine {
    pub merchandise: Merchandise,
    pub quantity: i32,
}

/// A threshold and reward pair of the tiered combo.
#[derive(Clone, Copy, Debug, PartialEq, Eq)]
pub struct Tier {
    pub min_quantity: i32,
    pub max_reward: i32,
    pub discount_value: Decimal,
}

/// A quantity break of volume pricing.
#[derive(Clone, Copy, Debug, PartialEq, Eq)]
pub struct VolumeTier {
    pub qty: i32,
    pub discount_pct: Decimal,
}

/// A product that is discounted when bought together with others.
#[derive(Clone, Debug, PartialEq, Eq)]
pub struct ComplementProduct {
    pub product_id: String,
    pub discount_pct: Decimal,
    pub quantity: i32,
}

/// The configuration as decoded, before any of it is interpreted.
#[derive(Clone, Debug, PartialEq, Eq)]
pub struct RawConfig {
    pub buy_type: String,
    pub buy_product_id: Option<String>,
    pub buy_collection_ids: Option<Vec<String>>,
    pub min_quantity: i32,
    pub get_product_id: String,
    pub discount_type: String,
    pub discount_value: Decimal,
    pub max_reward: i32,
    pub tiers: Option<Vec<Tier>>,
    pub volume_tiers: Option<Vec<VolumeTier>>,
    pub complement_products: Option<Vec<ComplementProduct>>,
    pub trigger_product_id: Option<String>,
}

/// How buy-qualifying lines are recognised.
#[derive(Clone, Copy, Debug, PartialEq, Eq)]
pub enum BuyType {
    Product,
    Collection,
}

/// Whether a discount value is a fraction of the price or an amount of money.
#[derive(Clone, Copy, Debug, PartialEq, Eq)]
pub enum DiscountType {
    Percentage,
    Fixed,
}

/// Frequently-bought-together bundling.
#[derive(Clone, Debug, PartialEq, Eq)]
pub struct ComplementPolicy {
    /// The configured complements. Where a product is named twice, its last
    /// entry counts.
    pub products: Vec<ComplementProduct>,
    /// The product that must be in the cart for any complement to be
    /// discounted. The empty string asks for none.
    pub trigger_product_id: Option<String>,
}

/// Quantity-break pricing on one product.
#[derive(Clone, Debug, PartialEq, Eq)]
pub struct VolumePolicy {
    pub product_id: String,
    pub tiers: Vec<VolumeTier>,
}

/// Classic buy-X-get-Y, with or without tiers.
#[derive(Clone, Debug, PartialEq, Eq)]
pub struct ClassicPolicy {
    pub buy_type: BuyType,
    pub buy_product_id: Option<String>,
    pub buy_collection_ids: Option<Vec<String>>,
    pub min_quantity: i32,
    pub get_product_id: String,
    pub discount_type: DiscountType,
    pub discount_value: Decimal,
    pub max_reward: i32,
    pub tiers: Option<Vec<Tier>>,
}

/// The normalized configuration: exactly one strategy.
#[derive(Clone, Debug, PartialEq, Eq)]
pub enum Policy {
    Complement(ComplementPolicy),
    Volume(VolumePolicy),
    Classic(ClassicPolicy),
}

/// A cart line, named by its variant, and how many of its units are discounted.
#[derive(Clone, Debug, PartialEq, Eq)]
pub struct Target {
    pub variant_id: String,
    pub quantity: i32,
}

/// The value of a discount.
#[derive(Clone, Copy, Debug, PartialEq, Eq)]
pub enum DiscountValue {
    Percentage(Decimal),
    FixedAmount(Decimal),
}

/// Which message a discount carries.
#[derive(Clone, Copy, Debug, PartialEq, Eq)]
pub enum DiscountLabel {
    /// "BXGY Bundle Discount"
    Bundle,
    /// "Volume Discount"
    Volume,
    /// The bundling message, which quotes the percentage.
    Complement(Decimal),
}

/// One discount instruction.
#[derive(Clone, Debug, PartialEq, Eq)]
pub struct Discount {
    pub label: DiscountLabel,
    pub targets: Vec<Target>,
    pub value: DiscountValue,
}

/// Whether only the first discount applies or all of them.
#[derive(Clone, Copy, Debug, PartialEq, Eq)]
pub enum ApplicationStrategy {
    First,
    All,
}

/// What one evaluation returns.
#[derive(Clone, Debug, PartialEq, Eq)]
pub struct RunResult {
    pub discounts: Vec<Discount>,
    pub strategy: ApplicationStrategy,
}

/// The mathematical content of a [`Discount`].
pub struct DiscountView {
    pub label: DiscountLabel,
    pub targets: Seq<Target>,
    pub value: DiscountValue,
}

/// The mathematical content of a [`RunResult`].
pub struct RunResultView {
    pub discounts: Seq<DiscountView>,
    pub strategy: ApplicationStrategy,
}

impl View for Discount {
    type V = DiscountView;

    open spec fn view(&self) -> DiscountView {
        DiscountView { label: self.label, targets: self.targets@, value: self.value }
    }
}

impl View for RunResult {
    type V = RunResultView;

    open spec fn view(&self) -> RunResultView {
        RunResultView {
            discounts: Seq::new(self.discounts@.len(), |i: int| self.discounts@[i]@),
            strategy: self.strategy,
        }
    }
}

/// The canonical "no discount" result.
pub open spec fn empty_result() -> RunResultView {
    RunResultView { discounts: Seq::empty(), strategy: ApplicationStrategy::First }
}

/// A result with one discount, of which only the first applies.
pub open spec fn single_result(d: DiscountView) -> RunResultView {
    RunResultView { discounts: seq![d], strategy: ApplicationStrategy::First }
}

impl RunResult {
    /// The canonical "no discount" result.
    pub fn empty() -> (r: RunResult)
        ensures
            r@ == empty_result(),
    {
        let r = RunResult { discounts: Vec::new(), strategy: ApplicationStrategy::First };
        assert(r@.discounts =~= Seq::empty());
        r
    }

    /// A result that holds the one discount `d`.
    pub fn single(d: Discount) -> (r: RunResult)
        ensures
            r@ == single_result(d@),
    {
        let mut discounts: Vec<Discount> = Vec::new();
        discounts.push(d);
        let r = RunResult { discounts, strategy: ApplicationStrategy::First };
        assert(r@.discounts =~= seq![d@]);
        r
    }
}

} // verus!
