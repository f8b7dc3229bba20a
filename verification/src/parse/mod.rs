pub mod comment;
pub mod error;
pub mod expression;
pub mod field_reference;
pub mod function;
pub mod literal_value;
pub mod spans;
pub mod text;
pub mod utils;
