//! Secret protection over an operating-system data-protection primitive,
//! and a small in-memory credential cache.
//!
//! The protection service builds the call that the primitive receives
//! (descriptors for the payload and the optional entropy, and the flags for
//! the chosen scope) and hands back what the primitive answers. The primitive
//! itself is passed in by the caller.

pub mod blob;
pub mod keyring;
pub mod laws;
pub mod protection;
pub mod scope;
