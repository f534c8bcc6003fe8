//! A cart service core: validation of a proposed cart against the customer,
//! discount and product authorities, and transactional create / read /
//! replace / delete of a cart (header plus lines) owned by a user.
//!
//! The service around this library performs the remote calls and the wire
//! handling; everything that decides — the validation pipeline, the error
//! taxonomy, and the repository semantics — lives here and is verified.

pub mod cart;
pub mod directory;
pub mod error;
pub mod laws;
pub mod pipeline;
pub mod store;
