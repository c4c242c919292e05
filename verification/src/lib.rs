//! Checkpoint sequencing engine for capturing still images from a
//! cycle-stepped console emulator.
//!
//! The library resolves symbolic labels to raw addresses, turns an ordered
//! list of checkpoints into a flat plan of emulator actions, and encodes the
//! emulator's palette-indexed framebuffer into RGBA image bytes.  Driving an
//! actual emulator and writing image files is left to a thin outer program.

pub mod checkpoint;
pub mod framebuffer;
pub mod labels;
pub mod sequencer;
