use vstd::prelude::*;

use crate::rational::Qr;
use crate::vec2::V2q;

verus! {

/// One discrete data mutation, reported exactly once per mutation.
#[derive(Clone, Copy, PartialEq, Eq, Structural, Debug)]
pub enum Change {
    SelectionChanged { id: u32, before: bool, after: bool },
    Clicked { id: u32 },
    DoubleClicked { id: u32 },
    DraggedChanged { id: u32, before: bool, after: bool },
    LocationMoved { id: u32, before: V2q, after: V2q },
}

/// One navigation change of the viewport; never touches node or edge data.
#[derive(Clone, Copy, PartialEq, Eq, Structural, Debug)]
pub enum Event {
    Pan { delta: V2q },
    Zoom { delta: Qr },
}

/// Direction of edges incident to a node, as seen from that node.
#[derive(Clone, Copy, PartialEq, Eq, Structural, Debug)]
pub enum Dir {
    Outgoing,
    Incoming,
}

/// A frame step could not be carried out because an exact coordinate left
/// the representable range; the viewport is kept well formed.
#[derive(Clone, Copy, PartialEq, Eq, Structural, Debug)]
pub struct NumOverflow;

} // verus!
