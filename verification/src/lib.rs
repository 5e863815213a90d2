use vstd::prelude::*;

pub mod text;
pub mod json;
pub mod user;
pub mod config;
pub mod skill_context;
pub mod library;
pub mod fallback;
pub mod skill;
pub mod crypto;
pub mod dsl;
pub mod array;
pub mod translation;
pub mod paths;
pub mod strops;
pub mod slots;

verus! {

} // verus!
