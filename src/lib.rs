//! Accounting core of a constant-product market maker: pair canonicalisation,
//! liquidity-claim bookkeeping and the add / remove / exchange transitions.
pub mod arith;
pub mod pair;
pub mod table;
pub mod registry;
pub mod ledger;
pub mod pool;
pub mod pallet;
pub mod laws;
