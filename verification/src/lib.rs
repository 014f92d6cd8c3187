//! Registry and consent core of an OAuth2 authorization server.
//!
//! The crate keeps the users and clients an authorization flow needs, remembers
//! which scope each user has granted to each client, and decides whether an
//! authorization attempt is already covered by such a grant or has to be
//! confirmed by the resource owner.

pub mod oauth;
pub mod routes;
