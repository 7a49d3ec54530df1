use vstd::prelude::*;

pub mod asset;
pub mod avatar;
pub mod config;
pub mod mode;
pub mod render;
pub mod session;
pub mod error;
pub mod input;
pub mod keys;
pub mod table;

verus! {

} // verus!
