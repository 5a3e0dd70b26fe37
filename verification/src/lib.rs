//! A programmable keyboard remapper core.
//!
//! The crate models the stateful middle of an event remapping pipeline:
//! a modifier state tracker, a mapping table keyed by key fingerprints,
//! a per-event rewrite engine with modifier reconciliation, a control
//! plane for mutating the table while events flow, a window-scope
//! arbiter with generation tokens, and a small script evaluator with
//! lexical scopes and lambdas.
//!
//! Device input and output, channels and host-language callbacks live
//! outside the crate; the engine consumes plain events and appends the
//! events it synthesizes to an output log that a driver drains into the
//! synthetic device.

pub mod keys;
pub mod modifiers;
pub mod table;
pub mod engine;
pub mod control;
pub mod script;
pub mod parse;
pub mod writer;
