//! A small line-oriented HTTP/1.1 request parser and response builder.
pub mod text;
pub mod http;
pub mod laws;
