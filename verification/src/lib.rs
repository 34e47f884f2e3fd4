//! The decisions behind streaming chat completions and the agent loop around
//! them: what is sent, what each server-sent event does to the reply that is
//! being put together, and which error is reported when.
//!
//! Everything here works on plain values. Sockets, timers and channels belong to
//! the program that uses the library.

pub mod agentic_loop;
pub mod error;
pub mod json;
pub mod laws;
pub mod provider;
pub mod request;
pub mod response;
pub mod stream;
pub mod text;
pub mod wire;
