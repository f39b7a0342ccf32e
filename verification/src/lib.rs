//! Duper: a human-friendly extension of JSON with extra types and semantic
//! identifiers.
pub mod ast;
pub mod builder;
pub mod convert;
pub mod diagnostics;
pub mod encoding;
pub mod equality;
pub mod format;
pub mod pretty_printer;
pub mod serializer;
pub mod text;
pub mod types;
pub mod unicode;
pub mod visitor;
pub mod rejection;
pub mod rpc;
