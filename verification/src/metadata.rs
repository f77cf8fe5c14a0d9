use vstd::prelude::*;

use crate::rational::{rat_of_int, rat_pos, Qr, Rat};
use crate::vec2::{RatV2, V2q};

verus! {

/// The mathematical value of the persisted viewport state.
pub struct MetaR {
    pub pan: RatV2,
    pub zoom: Rat,
    pub first_frame: bool,
}

/// The viewport state persisted across frames: the pan translation, the
/// zoom scalar, and whether fit-to-screen has yet to run for the first time.
#[derive(Clone, Copy, PartialEq, Eq, Structural, Debug)]
pub struct Metadata {
    pub pan: V2q,
    pub zoom: Qr,
    pub first_frame: bool,
}

impl View for Metadata {
    type V = MetaR;

    open spec fn view(&self) -> MetaR {
        MetaR { pan: self.pan@, zoom: self.zoom@, first_frame: self.first_frame }
    }
}

/// The default viewport value: no pan, unit zoom, first frame still ahead.
pub open spec fn meta_default() -> MetaR {
    MetaR {
        pan: RatV2 { x: rat_of_int(0), y: rat_of_int(0) },
        zoom: rat_of_int(1),
        first_frame: true,
    }
}

impl Metadata {
    /// The zoom is strictly positive at all times.
    pub open spec fn wf(self) -> bool {
        rat_pos(self.zoom@)
    }

    pub fn new() -> (r: Metadata)
        ensures
            r@ == meta_default(),
            r.wf(),
    {
        Metadata {
            pan: V2q::new(Qr::from_int(0), Qr::from_int(0)),
            zoom: Qr::from_int(1),
            first_frame: true,
        }
    }

    /// Restores the default viewport: pan zero, zoom one, first frame set.
    pub fn reset(&mut self)
        ensures
            final(self)@ == meta_default(),
            final(self).wf(),
    {
        *self = Metadata::new();
    }
}

impl Default for Metadata {
    fn default() -> (r: Self)
        ensures
            r@ == meta_default(),
            r.wf(),
    {
        Metadata::new()
    }
}

} // verus!
