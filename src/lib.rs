//! Scoped "current values": for any type, a value can be made the current
//! one for the length of a scope, and found again further down the call stack
//! without being passed along. Leaving the scope puts back whatever was current
//! before.
//!
//! The verified part of the crate is the bookkeeping: a per-context
//! [`Registry`] from type identities to address handles, the guard that undoes
//! a binding, and the laws that hold of binding and releasing.

mod guard;
mod laws;
mod registry;

pub use guard::{restored, unbound_message, CurrentGuard};
pub use laws::{
    lemma_bind_then_lookup, lemma_failure_names_type, lemma_nested_release,
    lemma_out_of_order_release, lemma_release_undoes_bind, lemma_unbound_before_any_bind,
};
pub use registry::{entry, Registry};
