use vstd::prelude::*;

pub mod database;
pub mod error;
pub mod models;
pub mod primitives;
pub mod rhodos_scopes;
pub mod routes;
pub mod scopes;
pub mod solicitor;

verus! {

/// What the owner of a resource answers when asked to grant a scope to a client.
#[derive(Clone, Copy, Debug, PartialEq, Eq, Structural)]
pub enum Consent {
    Allow,
    Deny,
}

} // verus!
