//! Discount decisions for Shopify product and order discount functions.

pub mod text;
pub mod number;
pub mod gid;
pub mod input;
pub mod output;
pub mod selection;
pub mod volume;
pub mod config;
pub mod listed;
pub mod tiered;
pub mod single;
pub mod json;
pub mod order;
pub mod conditions;
pub mod rules;
