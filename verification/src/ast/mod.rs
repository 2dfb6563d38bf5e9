//! The syntax tree of the language.

pub mod expression;

pub use self::expression::CondDisplay;
pub use self::expression::Expression;
