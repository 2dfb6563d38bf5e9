//! Values that stand on their own, without an interpreter behind them.

pub mod array;
pub mod object;
pub mod symbol;
pub mod value;
