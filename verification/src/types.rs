//! The plain data that the chart types share: interaction states, layout
//! records and the scale lines of the value axis.

use vstd::prelude::*;

verus! {

/// What the pointer's button is doing in the current frame.
#[derive(Debug, Clone, Copy, PartialEq, Eq, Structural)]
pub enum ClickingState {
    Idle,
    Holding,
    JustReleased,
}

/// Whether the pointer is over an element.
#[derive(Debug, Clone, Copy, PartialEq, Eq, Structural)]
pub enum PointerState {
    Idle,
    Hover,
}

/// Whether an element is selected, together with the moment at which it
/// entered that state. The moment is the start of the color animation that
/// the state drives.
#[derive(Debug, Clone, Copy, PartialEq, Eq, Structural)]
pub enum SelectedState {
    Unselected { timestamp: u64 },
    Selected { timestamp: u64 },
}

impl SelectedState {
    /// Whether the state is `Selected`.
    pub open spec fn is_selected(self) -> bool {
        self is Selected
    }

    /// The moment of the last transition.
    pub open spec fn since(self) -> u64 {
        match self {
            SelectedState::Unselected { timestamp } => timestamp,
            SelectedState::Selected { timestamp } => timestamp,
        }
    }

    /// The moment of the last transition.
    pub fn get_timestamp(&self) -> (t: u64)
        ensures
            t == self.since(),
    {
        match self {
            SelectedState::Unselected { timestamp } => *timestamp,
            SelectedState::Selected { timestamp } => *timestamp,
        }
    }
}

/// One horizontal reference line of the value axis, in pixels, with the data
/// value it stands for and its brightness.
#[derive(Debug, Clone, Copy, PartialEq, Eq, Structural)]
pub struct ScaleLineObject {
    pub x: u32,
    pub y: u32,
    pub width: u32,
    pub height: u32,
    pub intensity: u8,
    pub value: u32,
}

/// The margins between the canvas and the plot area.
#[derive(Debug, Clone, Copy, PartialEq, Eq, Structural)]
pub struct Positioning {
    pub bottom: u32,
    pub top: u32,
    pub left: u32,
    pub right: u32,
}

/// The layout of the value axis: the room it takes on the left, the smallest
/// step between two scale lines in data units, and the least distance
/// between two scale lines in pixels.
#[derive(Debug, Clone, Copy, PartialEq, Eq, Structural)]
pub struct ValueAxisLayout {
    pub value_axis_width: u32,
    pub value_axis_smallest_scale: u32,
    pub value_axis_min_pixel_distance: u32,
}

} // verus!
