//! Ways of walking a Duper value.
pub mod pretty_printer;
