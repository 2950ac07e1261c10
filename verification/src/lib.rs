//! A small library of verified helper functions: integer addition,
//! truncating division with remainder, text length and mutation, and
//! base-10 integer parsing with a descriptive error message.

pub mod arith;
pub mod parse;
pub mod text;

pub use arith::add_numbers;
pub use arith::divide_with_remainder;
pub use parse::parse_number;
pub use text::append_exclamation;
pub use text::calculate_length;
