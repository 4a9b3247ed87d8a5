//! Turns the table of an HTML document into a JSON array with one object
//! for each body row, keyed by the table's header texts.

pub mod dom;
pub mod extract;
pub mod generate;
pub mod json;
pub mod row;
pub mod text;

pub use extract::{extract_table, parse_html_table, try_parse_html_table};
pub use generate::generate_json;
pub use row::Row;
