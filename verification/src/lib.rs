//! Discount-decision engine for "buy X, get Y" promotions.
//!
//! A merchant configuration and a cart snapshot go in, a set of discount
//! instructions comes out. Every outcome that is not a discount is the same
//! empty result: the engine never fails.

pub mod model;
pub mod tiers;
pub mod classify;
pub mod allocate;
pub mod complement;
pub mod policy;
pub mod engine;
pub mod text;
