//! A minimal embeddable host for running untrusted guest modules inside a
//! capability-restricted sandbox.
//!
//! The host resolves and loads module source from a closed, host-controlled
//! namespace ([`loader::ZinniaModuleLoader`]), exposes a curated set of host
//! functions ("ops") to the guest ([`ops::OpRegistry`]), and drives guest
//! execution to completion on a single-threaded cooperative event loop
//! ([`host::RuntimeHost`]).

pub mod codec;
pub mod errors;
pub mod guest;
pub mod host;
pub mod loader;
pub mod ops;
