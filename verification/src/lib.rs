//! Credential validation and identity resolution for a collaborative
//! backend, together with the text helpers of a llama.cpp infill client.

pub mod completion;
pub mod credential;
pub mod identity;
pub mod login;
pub mod resolver;
pub mod synthetic_id;
pub mod text;
