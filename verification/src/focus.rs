//! Spatial focus: zones (top bar, rows, grids, lists) with a number of focusable
//! items each, and the focus position inside one of them.
use vstd::prelude::*;

verus! {

/// An arrow-key direction.
#[derive(Clone, Copy, Debug, PartialEq, Eq, Hash, Structural)]
pub enum Direction {
    Up,
    Down,
    Left,
    Right,
}

/// The focus graph for one screen.
#[derive(Clone, Debug, Default)]
pub struct FocusGraph {
    pub zones: Vec<Zone>,
}

/// A focus zone id, shared with the UI files.
#[derive(Clone, Copy, Debug, PartialEq, Eq, Hash, Structural)]
pub struct ZoneId(pub i32);

/// How a zone lays out its items.
#[derive(Clone, Copy, Debug, PartialEq, Eq, Structural)]
pub enum Layout {
    /// Left to right.
    Row,
    /// Top to bottom.
    List,
    /// Rows of `columns` items.
    Grid(usize),
    /// The screen's top bar.
    TopBar,
}

/// One zone: its id, layout, number of focusable items, whether it is a text field
/// and the item focused first.
#[derive(Clone, Copy, Debug, PartialEq, Eq, Structural)]
pub struct Zone {
    pub id: ZoneId,
    pub layout: Layout,
    pub items: usize,
    pub text: bool,
    pub preferred: usize,
}

impl Zone {
    /// A row of `items`.
    pub fn row(id: ZoneId, items: usize) -> (z: Zone)
        ensures
            z == (Zone { id, layout: Layout::Row, items, text: false, preferred: 0 }),
    {
        Zone { id, layout: Layout::Row, items, text: false, preferred: 0 }
    }

    /// A vertical list of `items`.
    pub fn list(id: ZoneId, items: usize) -> (z: Zone)
        ensures
            z == (Zone { id, layout: Layout::List, items, text: false, preferred: 0 }),
    {
        Zone { id, layout: Layout::List, items, text: false, preferred: 0 }
    }

    /// A grid of `items` in rows of `columns`.
    pub fn grid(id: ZoneId, columns: usize, items: usize) -> (z: Zone)
        ensures
            z == (Zone { id, layout: Layout::Grid(columns), items, text: false, preferred: 0 }),
    {
        Zone { id, layout: Layout::Grid(columns), items, text: false, preferred: 0 }
    }

    /// The top bar with `items` buttons.
    pub fn top_bar(id: ZoneId, items: usize) -> (z: Zone)
        ensures
            z == (Zone { id, layout: Layout::TopBar, items, text: false, preferred: 0 }),
    {
        Zone { id, layout: Layout::TopBar, items, text: false, preferred: 0 }
    }

    /// The same zone holding a text field.
    pub fn text(self) -> (z: Zone)
        ensures
            z == (Zone { text: true, ..self }),
    {
        Zone { text: true, ..self }
    }

    /// The same zone, entered at item `index`.
    pub fn prefer(self, index: usize) -> (z: Zone)
        ensures
            z == (Zone { preferred: index, ..self }),
    {
        Zone { preferred: index, ..self }
    }

    /// The number of focusable items.
    pub fn len(&self) -> (n: usize)
        ensures
            n == self.items,
    {
        self.items
    }

    /// True when nothing in the zone can take the focus.
    pub fn is_empty(&self) -> (b: bool)
        ensures
            b == (self.items == 0),
    {
        self.items == 0
    }
}

/// The focused item: item `index` of zone `zone`.
#[derive(Clone, Copy, Debug, PartialEq, Eq, Structural)]
pub struct Focus {
    pub zone: ZoneId,
    pub index: usize,
}

impl Focus {
    pub fn new(zone: ZoneId, index: usize) -> (f: Focus)
        ensures
            f == (Focus { zone, index }),
    {
        Focus { zone, index }
    }
}

/// The modifier keys held with a key press.
#[derive(Clone, Copy, Debug, Default, PartialEq, Eq, Structural)]
pub struct Modifiers {
    pub control: bool,
    pub shift: bool,
    pub alt: bool,
    pub meta: bool,
}

/// The modifiers of a key event.
pub fn modifiers(control: bool, shift: bool, alt: bool, meta: bool) -> (m: Modifiers)
    ensures
        m == (Modifiers { control, shift, alt, meta }),
{
    Modifiers { control, shift, alt, meta }
}

} // verus!
