//! In-memory model of SQL scalar types and SQL operators, with the
//! rendering of each value back into SQL text.
pub mod data_type;
pub mod decimal;
pub mod grammar;
pub mod operator;

pub use data_type::{DataType, ObjectName};
pub use operator::{BinaryOperator, UnaryOperator};
