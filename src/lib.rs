//! A small runner for sandboxed WebAssembly functions that are invoked
//! directly or by fanning out a trigger subject to every subscriber.
pub mod engine;
pub mod error;
pub mod function;
pub mod host;
pub mod ident;
pub mod trigger;
pub mod laws;
