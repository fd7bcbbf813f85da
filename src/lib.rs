//! Call frame information for compiled functions.
//!
//! - `registers`: DWARF numbers of the code generator's register units.
//! - `layout`: frame layout commands from a function's emitted instructions.
//! - `cfa`: the CFA state tracker that turns commands into instructions.
//! - `cfi`, `leb128`, `table`: the `.debug_frame` binary encoding.
//! - `decode`: how a DWARF consumer reads the instruction stream back.
//! - `frame`: the table of a compiled module.
//! - `systemv`: the hand-over of an entry to gimli's writer.
//! - `compile`: relocations and the in-order collection of per-function results.

pub mod cfa;
pub mod cfi;
pub mod compile;
pub mod decode;
pub mod error;
pub mod frame;
pub mod layout;
pub mod leb128;
pub mod registers;
pub mod systemv;
pub mod table;
