//! The request-handling core of a small container-image registry.
//!
//! Every HTTP handler of the registry is split into a pure step that is
//! verified here (from the registry state and the request's plain values to
//! the next state and a response value) and the transport around it, which
//! lives outside this crate.

pub mod search;
pub mod text;
pub mod trusted;
pub mod keyed;
pub mod http;
pub mod state;
pub mod blob;
pub mod handlers;
pub mod registry;
pub mod laws;
