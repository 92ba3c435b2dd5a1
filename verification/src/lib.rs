//! The core of a lemmatization service that hands text to a long-running
//! analyzer process and aligns what comes back with what went out.
//!
//! The core does no input or output. [`lemmatizer::Lemmatizer`] decides
//! what is to be done with the analyzer and its streams, and whoever
//! drives it does it: see [`model`] for the state machine and [`laws`]
//! for what holds of all its runs. [`protocol`] holds the wire contract,
//! [`alignment`] the pairing of tokens with lemmas, and [`text`] the
//! operations on characters beneath both. [`vocabulary`] holds the rules
//! by which a service around the core reads its vocabulary store.

pub mod alignment;
pub mod error;
pub mod laws;
pub mod lemmatizer;
pub mod model;
pub mod protocol;
pub mod text;
pub mod text_laws;
pub mod vocabulary;

pub use crate::alignment::LemmatizeResult;
pub use crate::error::CoreError;
pub use crate::lemmatizer::{Directive, Event, Lemmatizer};
pub use crate::model::Phase;
