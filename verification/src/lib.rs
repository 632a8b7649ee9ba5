//! Generator of C declarations and message descriptors for Rune schemas.
//!
//! A linked schema goes in, the text of the C headers and sources comes out.
//! Every function states what it returns in terms of mathematical models of
//! its arguments, and Verus proves the body against that statement.

pub mod architecture;
pub mod c_standard;
pub mod c_utilities;
pub mod compiler_error;
pub mod generate;
pub mod header;
pub mod layout;
pub mod literals;
pub mod output_file;
pub mod parser;
pub mod runic_definitions;
pub mod schema;
pub mod source;
pub mod struct_text;
pub mod structs;
pub mod text;
