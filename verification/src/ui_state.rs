//! The plain state that an interactive surface around the engine keeps:
//! display language, which screen is up, the player kinds on offer, and
//! which statistics plot a viewer shows. Rendering itself lives with the
//! surface, not here.

use vstd::prelude::*;

verus! {

/// The display language of the surface.
#[derive(Debug, Clone, Copy, PartialEq, Eq, Structural)]
pub enum Language {
    Japanese,
    English,
}

/// Which screen the surface is showing.
#[derive(Debug, Clone, Copy, PartialEq, Eq, Structural)]
pub enum GameState {
    Menu,
    Playing,
    GameOver,
    ViewingStats,
}

/// The player kinds a menu offers for one side.
#[derive(Debug, Clone, Copy, PartialEq, Eq, Structural)]
pub enum PlayerTypeSelection {
    Human,
    AI1,
    AI3,
    AI5,
    AI7,
    AI9,
    AI11,
    AI13,
    Custom,
}

impl PlayerTypeSelection {
    /// The search depth a selection stands for; the custom choice carries
    /// its own.
    pub open spec fn spec_level(self) -> Option<int> {
        match self {
            PlayerTypeSelection::Human => None,
            PlayerTypeSelection::AI1 => Some(1int),
            PlayerTypeSelection::AI3 => Some(3int),
            PlayerTypeSelection::AI5 => Some(5int),
            PlayerTypeSelection::AI7 => Some(7int),
            PlayerTypeSelection::AI9 => Some(9int),
            PlayerTypeSelection::AI11 => Some(11int),
            PlayerTypeSelection::AI13 => Some(13int),
            PlayerTypeSelection::Custom => None,
        }
    }

    /// Returns the menu label of the selection.
    pub fn to_string(&self) -> (r: &'static str) {
        match self {
            PlayerTypeSelection::Human => "Human",
            PlayerTypeSelection::AI1 => "AI level 1 (beginner)",
            PlayerTypeSelection::AI3 => "AI level 3 (intermediate)",
            PlayerTypeSelection::AI5 => "AI level 5 (advanced)",
            PlayerTypeSelection::AI7 => "AI level 7 (expert)",
            PlayerTypeSelection::AI9 => "AI level 9 (master)",
            PlayerTypeSelection::AI11 => "AI level 11 (grandmaster)",
            PlayerTypeSelection::AI13 => "AI level 13 (maximum)",
            PlayerTypeSelection::Custom => "Custom",
        }
    }
}

/// The statistics plots a viewer can show.
#[derive(Debug, Clone, Copy, PartialEq, Eq, Structural)]
pub enum PlotType {
    DiscCount,
    ThinkingTime,
    Evaluation,
    Overview,
}

/// The state of the statistics viewer: which plot is selected, whether any
/// finished game has produced data, and whether axes are pinned.
pub struct PlotViewer {
    selected_plot: PlotType,
    has_data: bool,
    fixed_bounds: bool,
}

impl PlotViewer {
    /// The selected plot.
    pub closed spec fn spec_selected(self) -> PlotType {
        self.selected_plot
    }

    /// Whether data is available to plot.
    pub closed spec fn spec_has_data(self) -> bool {
        self.has_data
    }

    /// Whether the axes are pinned.
    pub closed spec fn spec_fixed_bounds(self) -> bool {
        self.fixed_bounds
    }

    /// Creates a viewer on the disc-count plot, with no data yet and
    /// pinned axes.
    pub fn new() -> (r: PlotViewer)
        ensures
            r.spec_selected() == PlotType::DiscCount,
            !r.spec_has_data(),
            r.spec_fixed_bounds(),
    {
        PlotViewer { selected_plot: PlotType::DiscCount, has_data: false, fixed_bounds: true }
    }

    /// Notes that a finished game has produced data.
    pub fn mark_data_available(&mut self)
        ensures
            final(self).spec_has_data(),
            final(self).spec_selected() == old(self).spec_selected(),
            final(self).spec_fixed_bounds() == old(self).spec_fixed_bounds(),
    {
        self.has_data = true;
    }
}

} // verus!
