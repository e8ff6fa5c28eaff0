//! Media types, port directions and runtime parameter values.

use vstd::prelude::*;

verus! {

/// The capability class of a port: raw video or raw audio.  Classifying a
/// port is a plain equality test between two such descriptors.
#[derive(Clone, Copy, PartialEq, Eq, Structural, Debug)]
pub enum MediaType {
    Video,
    Audio,
}

/// The direction of a port as seen from the node that owns it.
#[derive(Clone, Copy, PartialEq, Eq, Structural, Debug)]
pub enum Direction {
    Input,
    Output,
}

/// A dynamically typed parameter value, as handed to the per-input update
/// dispatch.  A double travels as its IEEE-754 bit pattern; the engine only
/// stores it, it never computes with it.
#[derive(Clone, Copy, PartialEq, Eq, Structural, Debug)]
pub enum ParamValue {
    IntVal(i32),
    UIntVal(u32),
    DoubleBits(u64),
    BoolVal(bool),
}

/// One event of the container's status-message stream, drained while the
/// container is active.
pub enum StatusMessage {
    Eos,
    Error(String),
    Other,
}

} // verus!
