//! Numeric engine for a discretised liquidity ladder: fee-factor encoding,
//! price/bin conversion, curve-shaped funding distribution and amount
//! compression, each with a machine-checked contract.

pub mod error;
pub mod amount;
pub mod compress;
pub mod curve;
pub mod decimal;
pub mod double;
pub mod fee;
pub mod ladder;
pub mod params;
pub mod power;
pub mod price;
pub mod seed;
