use vstd::prelude::*;

use crate::vec2::V2q;

verus! {

/// A graph node: a 2D position in graph-space coordinates, an opaque client
/// payload handle, and the two persistent interaction flags.
#[derive(Clone, Copy, PartialEq, Eq, Structural, Debug)]
pub struct Node {
    pub location: V2q,
    pub payload: u64,
    pub selected: bool,
    pub dragged: bool,
}

impl Node {
    /// A fresh node at the given location, neither selected nor dragged.
    pub fn new(location: V2q, payload: u64) -> (r: Node)
        ensures
            r == (Node { location, payload, selected: false, dragged: false }),
    {
        Node { location, payload, selected: false, dragged: false }
    }

    pub fn location(&self) -> (r: V2q)
        ensures
            r == self.location,
    {
        self.location
    }

    pub fn selected(&self) -> (r: bool)
        ensures
            r == self.selected,
    {
        self.selected
    }

    pub fn dragged(&self) -> (r: bool)
        ensures
            r == self.dragged,
    {
        self.dragged
    }

    pub fn set_location(&mut self, location: V2q)
        ensures
            *final(self) == (Node { location, ..*old(self) }),
    {
        self.location = location;
    }

    pub fn set_selected(&mut self, selected: bool)
        ensures
            *final(self) == (Node { selected, ..*old(self) }),
    {
        self.selected = selected;
    }

    pub fn set_dragged(&mut self, dragged: bool)
        ensures
            *final(self) == (Node { dragged, ..*old(self) }),
    {
        self.dragged = dragged;
    }
}

/// A graph edge weight: an opaque client payload handle. The endpoints are
/// held by the graph store itself.
#[derive(Clone, Copy, PartialEq, Eq, Structural, Debug)]
pub struct Edge {
    pub payload: u64,
}

impl Edge {
    pub fn new(payload: u64) -> (r: Edge)
        ensures
            r == (Edge { payload }),
    {
        Edge { payload }
    }
}

} // verus!
