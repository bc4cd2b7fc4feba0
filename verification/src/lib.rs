//! A data-broker library: a composable query algebra over plain records,
//! translation of queries into HTTP parameter form with an explicit residue,
//! a verified JSON codec, and multi-source brokering with explicit
//! partial-failure policies.

pub mod errors;
pub mod value;
pub mod query;
pub mod encode;
pub mod connector;
pub mod broker;
pub mod rest;
