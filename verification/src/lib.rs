//! Diagnostics for developer machines: parsers for the text that Linux tools
//! and `/proc` files print, the rules that turn probe results into reports,
//! and the text of those reports.
use vstd::prelude::*;

pub mod text;
pub mod order;
pub mod units;
pub mod collectors;
pub mod style;
pub mod cli;
pub mod config;
pub mod logging;

verus! {

} // verus!
