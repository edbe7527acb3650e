//! Keeps a reading folder on an e-reader in step with a remote reading list.
//!
//! The verified core is the reconciliation store (`store`), which tracks each
//! synchronised item through `new -> current -> read pending -> archived`, and
//! the pure stages of the document pipeline (`article`): choosing between two
//! extractions, composing headers and templates, sanitising markup and naming
//! embedded resources.
use vstd::prelude::*;

pub mod article;
pub mod descriptor;
pub mod ident;
pub mod package;
pub mod query;
pub mod remote;
pub mod store;
pub mod text;

verus! {

} // verus!
