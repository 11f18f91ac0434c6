//! A constant-product automated market maker engine over two assets.
//!
//! Every operation is a pure computation: it takes the observed reserves and
//! share supply as plain integers and returns the exact amounts that the
//! surrounding ledger must transfer, mint or burn.
pub mod error;
pub mod liquidity;
pub mod math;
pub mod pool;
pub mod swap;
