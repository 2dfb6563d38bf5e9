//! The types that represent a value in Dermis.
//!
//! The types of this module are bound to the interpreter that made them,
//! through the symbols that they hold. Those of [`owned`] are not.

pub mod array;
pub mod avalue;
pub mod convert;
pub mod display;
pub mod number;
pub mod object;
pub mod order;
pub mod order_laws;
pub mod owned;
pub mod symbol;
pub mod value;
pub mod view;

pub use self::array::Array;
pub use self::avalue::AValue;
pub use self::avalue::VariantCmpAValue;
pub use self::number::Number;
pub use self::object::get_null;
pub use self::object::Object;
pub use self::owned::array::OwnedArray;
pub use self::owned::object::get_null_owned;
pub use self::owned::object::OwnedObject;
pub use self::owned::symbol::OwnedSymbol;
pub use self::owned::value::OwnedValue;
pub use self::symbol::Symbol;
pub use self::value::Value;
