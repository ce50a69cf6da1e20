//! Client types for a hosted language-model API, and the incremental reader of its chat
//! stream: bytes arrive in arbitrary chunks, are framed into newline-terminated records,
//! decoded into events, and queued for a consumer that pulls them one at a time.
use vstd::prelude::*;

pub mod framer;
pub mod json;
pub mod chat;
pub mod decode;
pub mod stream;
pub mod models;
pub mod rerank;

verus! {

} // verus!
