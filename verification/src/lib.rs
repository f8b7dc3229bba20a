pub mod diagnostics;
pub mod function_names;
pub mod lsp;
pub mod parse;
pub mod report;
pub mod strings;
pub mod text_scan;
pub mod token;
pub mod validation;

pub use validation::{
    validate_expression, validate_expression_detailed, validate_expression_detailed_with_source,
    ValidationError, ValidationSuggestion,
};
