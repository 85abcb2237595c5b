//! The rules that the zero-knowledge guests enforce: private transactions, and
//! the aggregation of their claims into a block.
pub mod agg_guest;
pub mod priv_guest;
