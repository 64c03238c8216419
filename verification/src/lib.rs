use vstd::prelude::*;

pub mod backend;
pub mod config;
pub mod drain;
pub mod errors;
pub mod health;
pub mod json;
pub mod manifest;
pub mod plugin;
pub mod request;
pub mod session_id;

verus! {
} // verus!
