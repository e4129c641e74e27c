//! A verified splitter of line-oriented text into three sequential blocks —
//! pre, central, post — delimited by two caller-supplied sentinel lines.
//! Each closed block is flushed to the handler bound to it.

pub mod handler;
pub mod laws;
pub mod machine;
pub mod parser;
pub mod processor;
