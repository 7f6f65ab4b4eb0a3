//! Interactive runner for a small transaction-scripting language.
//!
//! The crate is organised around three components: a value renderer that
//! turns a runtime value back into re-parseable surface syntax
//! ([`mvm_pretty`]), a spend-context synthesizer that completes a sparse
//! scenario description into a dense transaction and execution environment
//! ([`EnvFile::from_spend_context`]), and a session manager that drives
//! compile, synthesize, execute and render cycles for file loads and
//! REPL lines ([`Runner`]).

pub mod envfile;
pub mod render;
pub mod runner;
pub mod text;

pub use envfile::{CoinRecord, CoinId, Denom, EnvFile, SpendContext, TransactionKind, map_to_vec};
pub use render::{Value, mvm_pretty, truthy};
pub use runner::{LoadFileError, ReplError, Runner};
