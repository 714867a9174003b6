//! Interpretation of textual numbers in the common numeric bases and their
//! conversion between binary, octal, decimal and hexadecimal.

pub mod digits;
pub mod error;
pub mod format;
pub mod hint;
pub mod number;
pub mod query;
pub mod record;
pub mod text;

pub use digits::ParseFailure;
pub use error::Error;
pub use format::Format;
pub use number::Number;
pub use query::{answer, respond, run};
pub use record::ResultRecord;
