//! Host-side command/response engine for an SPD programmer device reached
//! over a serial link: command encoding, bounded receive accumulation, and
//! classification/rendering of the reply payload.

pub mod command;
pub mod encode;
pub mod parse;
pub mod reader;
pub mod render;

use vstd::prelude::*;

verus! {

} // verus!
