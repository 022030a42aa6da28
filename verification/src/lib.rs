//! Frontmatter documents: a metadata block between two delimiter lines, the
//! layers it is merged from, and the text it is written as.

pub mod block;
pub mod clock;
pub mod document;
pub mod laws;
pub mod merge;
pub mod serialize;
pub mod template;
pub mod text;
