//! The value model of the Dermis interpreter: numbers, strings, symbols,
//! arrays and objects, and the per-interpreter table that interns symbol
//! names.

pub mod ast;
pub mod interpreter;
pub mod table;
pub mod value;

pub use self::interpreter::Interpreter;
pub use self::table::SymbolTable;
