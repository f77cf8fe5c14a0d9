use vstd::prelude::*;

use crate::rational::{rat_le, rat_lt, rat_of_int, rat_pos, Qr};

verus! {

/// Which pointer interactions the controller is allowed to perform.
#[derive(Clone, Copy, PartialEq, Eq, Structural, Debug)]
pub struct SettingsInteraction {
    pub clicking_enabled: bool,
    pub selection_enabled: bool,
    pub selection_multi_enabled: bool,
    pub dragging_enabled: bool,
}

impl Default for SettingsInteraction {
    /// Every interaction starts disabled.
    fn default() -> (r: Self)
        ensures
            r == (SettingsInteraction {
                clicking_enabled: false,
                selection_enabled: false,
                selection_multi_enabled: false,
                dragging_enabled: false,
            }),
    {
        SettingsInteraction {
            clicking_enabled: false,
            selection_enabled: false,
            selection_multi_enabled: false,
            dragging_enabled: false,
        }
    }
}

/// Navigation behaviour: zoom and pan gestures and fit-to-screen.
#[derive(Clone, Copy, PartialEq, Eq, Structural, Debug)]
pub struct SettingsNavigation {
    pub zoom_and_pan_enabled: bool,
    pub fit_to_screen_enabled: bool,
    pub zoom_speed: Qr,
    pub screen_padding: Qr,
}

impl SettingsNavigation {
    /// The zoom speed must stay strictly between zero and one so a zoom step
    /// keeps the zoom strictly positive; the padding must not be negative.
    pub open spec fn wf(self) -> bool {
        &&& rat_pos(self.zoom_speed@)
        &&& rat_lt(self.zoom_speed@, rat_of_int(1))
        &&& rat_le(rat_of_int(0), self.screen_padding@)
    }
}

impl Default for SettingsNavigation {
    /// Gestures disabled, fit-to-screen only on the first frame, a zoom step
    /// of one tenth, and three tenths of decorative padding.
    fn default() -> (r: Self)
        ensures
            r.zoom_and_pan_enabled == false,
            r.fit_to_screen_enabled == false,
            r.zoom_speed@ == (crate::rational::Rat { n: 1int, d: 10int }),
            r.screen_padding@ == (crate::rational::Rat { n: 3int, d: 10int }),
            r.wf(),
    {
        SettingsNavigation {
            zoom_and_pan_enabled: false,
            fit_to_screen_enabled: false,
            zoom_speed: Qr::from_ratio(1, 10),
            screen_padding: Qr::from_ratio(3, 10),
        }
    }
}

/// Style parameters read by the computed state.
#[derive(Clone, Copy, PartialEq, Eq, Structural, Debug)]
pub struct SettingsStyle {
    pub node_radius: Qr,
}

impl SettingsStyle {
    /// Hit testing and bounding boxes assume a strictly positive radius.
    pub open spec fn wf(self) -> bool {
        rat_pos(self.node_radius@)
    }
}

impl Default for SettingsStyle {
    /// Nodes are drawn with a radius of five graph units.
    fn default() -> (r: Self)
        ensures
            r.node_radius@ == crate::rational::rat_of_int(5),
            r.wf(),
    {
        SettingsStyle { node_radius: Qr::from_int(5) }
    }
}

} // verus!
