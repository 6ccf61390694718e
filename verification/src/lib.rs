//! unit: a Forth machine that is also a mesh agent.

use vstd::prelude::*;

pub mod browser;
pub mod cli;
pub mod clock;
pub mod codec;
pub mod cut;
pub mod features;
pub mod goal_laws;
pub mod goals;
pub mod mesh;
pub mod num;
pub mod order;
pub mod persist;
pub mod platform;
pub mod prelude;
pub mod registry;
pub mod report_laws;
pub mod spawn;
pub mod text;
pub mod text_laws;
pub mod types;
pub mod vm;
pub mod wire;

verus! {

} // verus!
