//! Codec for the AVG32 visual-novel scripting bytecode: scene files
//! (`TPC32` header plus an opcode stream), their `PACL` container archive,
//! and the label-resolution pass that turns byte offsets into symbolic names.
use vstd::prelude::*;

pub mod codec;
pub mod cmds;
pub mod cond;
pub mod archive;
pub mod buffer;
pub mod choice;
pub mod grp;
pub mod font;
pub mod header;
pub mod labels;
pub mod names;
pub mod opcode;
pub mod scene;
pub mod sjis;
pub mod snd;
pub mod text;
pub mod val;
pub mod winsys;

verus! {

} // verus!
