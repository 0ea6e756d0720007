//! The focus graph of each screen.
use vstd::prelude::*;

use crate::focus::FocusGraph;
use crate::router::Screen;

verus! {

/// One focus graph per screen; the player shares one with the screens that have none.
pub struct Graphs {
    pub home: FocusGraph,
    pub search: FocusGraph,
    pub details: FocusGraph,
    pub settings: FocusGraph,
    pub login: FocusGraph,
    pub queue: FocusGraph,
    pub library: FocusGraph,
    /// The player screen.
    pub other: FocusGraph,
}

/// The graph of `screen`.
pub open spec fn graph_of(g: Graphs, screen: Screen) -> FocusGraph {
    match screen {
        Screen::Home => g.home,
        Screen::Search => g.search,
        Screen::Details => g.details,
        Screen::Settings => g.settings,
        Screen::Login => g.login,
        Screen::Queue => g.queue,
        Screen::Library => g.library,
        Screen::Player => g.other,
    }
}

/// `g` with the graph of `screen` replaced by `f`.
pub open spec fn with_graph(g: Graphs, screen: Screen, f: FocusGraph) -> Graphs {
    match screen {
        Screen::Home => Graphs { home: f, ..g },
        Screen::Search => Graphs { search: f, ..g },
        Screen::Details => Graphs { details: f, ..g },
        Screen::Settings => Graphs { settings: f, ..g },
        Screen::Login => Graphs { login: f, ..g },
        Screen::Queue => Graphs { queue: f, ..g },
        Screen::Library => Graphs { library: f, ..g },
        Screen::Player => Graphs { other: f, ..g },
    }
}

impl Graphs {
    /// The graph of `screen`.
    pub fn get(&self, screen: Screen) -> (r: &FocusGraph)
        ensures
            *r == graph_of(*self, screen),
    {
        match screen {
            Screen::Home => &self.home,
            Screen::Search => &self.search,
            Screen::Details => &self.details,
            Screen::Settings => &self.settings,
            Screen::Login => &self.login,
            Screen::Queue => &self.queue,
            Screen::Library => &self.library,
            Screen::Player => &self.other,
        }
    }

    /// The graph of `screen`, to change; the other graphs stay as they are.
    pub fn get_mut(&mut self, screen: Screen) -> (r: &mut FocusGraph)
        ensures
            *r == graph_of(*old(self), screen),
            *final(self) == with_graph(*old(self), screen, *final(r)),
    {
        match screen {
            Screen::Home => &mut self.home,
            Screen::Search => &mut self.search,
            Screen::Details => &mut self.details,
            Screen::Settings => &mut self.settings,
            Screen::Login => &mut self.login,
            Screen::Queue => &mut self.queue,
            Screen::Library => &mut self.library,
            Screen::Player => &mut self.other,
        }
    }
}

} // verus!
