use vstd::prelude::*;

pub mod club;
pub mod geometry;
pub mod snapshot;
pub mod heading_up_play;
pub mod tick;

verus! {

} // verus!
