use vstd::prelude::*;

pub mod change;
pub mod channel;
pub mod computed;
pub mod graph_view;
pub mod graph_wrapper;
pub mod laws;
pub mod metadata;
pub mod node;
pub mod rational;
pub mod settings;
pub mod store;
pub mod transform;
pub mod vec2;

pub use change::{Change, Dir, Event, NumOverflow};
pub use computed::ComputedState;
pub use graph_view::{FrameInput, FrameOutput, GraphView};
pub use graph_wrapper::GraphWrapper;
pub use metadata::Metadata;
pub use node::{Edge, Node};
pub use rational::Qr;
pub use settings::{SettingsInteraction, SettingsNavigation, SettingsStyle};
pub use vec2::V2q;

verus! {

} // verus!
