use vstd::prelude::*;

pub mod error;
pub mod bitreader;
pub mod proto;
pub mod baselines;
pub mod outside;
pub mod parser;
pub mod stringtables;
pub mod frame;
pub mod demo;
pub mod variants;
pub mod friendly;
pub mod steamworks;
pub mod entities;
pub mod events;
pub mod effects;

verus! {

} // verus!
