//! Simple parsing and deserialization of SGML.

pub mod chars;
pub mod de;
pub mod entities;
pub mod error;
pub mod event;
pub mod fragment;
pub mod marked_sections;
pub mod parser;
pub mod text;
pub mod transforms;

pub use error::Error;
pub use event::SgmlEvent;
pub use fragment::SgmlFragment;
pub use parser::parse;
pub use parser::Parser;
pub use parser::config::ParserConfig;
