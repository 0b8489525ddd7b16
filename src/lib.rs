use vstd::prelude::*;

pub mod board;
pub mod chess;
pub mod error;
pub mod network;

verus! {

} // verus!
