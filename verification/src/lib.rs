//! The core of a code-search query engine: the values that query commands
//! hand to one another, and the rules by which a graph of such commands
//! runs.
//!
//! * [`values`] holds the one type that every command takes and gives, and
//!   [`symbols`], [`records`], [`bundle`], [`spans`], [`facets`] and
//!   [`kinds`] the types it is made of.
//! * [`quality`] orders symbols by how well they match what was typed.
//! * [`spans`] and [`bundle`] say which lines of which files the results
//!   need, and fit the text of those lines into the results.
//! * [`store`] and [`graph`] hold the state of a run and decide what runs
//!   next; running it, which waits on a backend, is left to the caller.
//! * [`search_text`] works out what a text search asks the backend, and
//!   [`options`] holds the options of symbol queries.
//!
//! The functions of this crate are verified against their contracts.  What
//! outside crates compute is taken on trust, and said so where it is used.

pub mod bundle;
pub mod errors;
pub mod facets;
pub mod graph;
pub mod json;
pub mod kinds;
pub mod name_map;
pub mod options;
pub mod quality;
pub mod records;
pub mod search_text;
pub mod spans;
pub mod store;
pub mod symbols;
pub mod values;
