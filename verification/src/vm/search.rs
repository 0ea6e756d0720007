//! Debounced search and the results grid.
use vstd::prelude::*;

use crate::focus::{Layout, Zone, ZoneId};
use crate::text::{string_of, trim_str, trimmed};

verus! {

/// The search field's zone id.
pub const INPUT: i32 = 10;
/// The results grid's zone id.
pub const GRID: i32 = 11;

/// Typing waits this many milliseconds before searching; Enter searches at once.
pub const DEBOUNCE_MS: u64 = 400;

/// What to do after the query changed.
#[derive(Debug, PartialEq, Eq)]
pub enum Plan {
    /// The query is blank: clear the results and the stamp.
    Clear,
    /// Search `query` after `delay_ms`, then call [`Debounce::fire`] with `generation`.
    Run { query: String, delay_ms: u64, generation: u64 },
}

/// The search scheduling: every edit cancels the pending search, a blank query clears at
/// once, and a search whose query equals the last one run does nothing (so Enter after the
/// debounce already fired is free).
#[derive(Debug, PartialEq, Eq)]
pub struct Debounce {
    /// Counts the edits; a planned search carries the count it was planned at.
    pub generation: u64,
    /// The query of the last search that ran; empty when none runs or after a clear.
    pub last_query: String,
}

impl Default for Debounce {
    fn default() -> (d: Debounce)
        ensures
            d.generation == 0,
            d.last_query@.len() == 0,
    {
        Debounce { generation: 0, last_query: String::new() }
    }
}

/// The count after one more edit.
pub open spec fn next_generation(g: u64) -> u64 {
    if g == u64::MAX { 0 } else { (g + 1) as u64 }
}

/// Whether a search planned at `generation` for `query` runs when its delay elapses in `d`:
/// no edit came since, and the query is not the last one run.
pub open spec fn fire_runs(d: Debounce, generation: u64, query: Seq<char>) -> bool {
    generation == d.generation && query != d.last_query@
}

/// Every edit cancels the pending search: once the count moved on by one edit, a search
/// planned before it does not run, whatever its query.
pub proof fn law_an_edit_cancels_the_pending_search(before: Debounce, after: Debounce, query: Seq<char>)
    requires
        after.generation == next_generation(before.generation),
    ensures
        !fire_runs(after, before.generation, query),
{
}

/// The same query runs once: after a search ran, firing it again with the same query does
/// nothing (Enter after the debounce fired is free).
pub proof fn law_the_same_query_runs_once(d: Debounce, after: Debounce, generation: u64, query: Seq<char>)
    requires
        fire_runs(d, generation, query),
        after.generation == d.generation,
        after.last_query@ == query,
    ensures
        !fire_runs(after, generation, query),
{
}

/// Closing the screen drops every older search: after a reset (one more count, the last
/// query forgotten), no search planned at an earlier count runs, and any non-blank query
/// planned at the new count runs. The count wraps after `u64::MAX` edits, where an old count
/// can come round again; that is left out.
pub proof fn law_reset_drops_older_searches(before: Debounce, after: Debounce, old_generation: u64, query: Seq<char>)
    requires
        after.generation == next_generation(before.generation),
        after.last_query@.len() == 0,
        before.generation < u64::MAX,
        old_generation <= before.generation,
    ensures
        !fire_runs(after, old_generation, query),
        query.len() > 0 ==> fire_runs(after, after.generation, query),
{
}

/// A blank query forgets the last search: once cleared, any non-blank query runs again
/// when no newer edit came.
pub proof fn law_clearing_forgets_the_last_query(cleared: Debounce, query: Seq<char>)
    requires
        cleared.last_query@.len() == 0,
        query.len() > 0,
    ensures
        fire_runs(cleared, cleared.generation, query),
{
}

impl Debounce {
    /// The query text changed (`immediate` for Enter).
    pub fn edit(&mut self, raw: &str, immediate: bool) -> (p: Plan)
        ensures
            final(self).generation == next_generation(old(self).generation),
            trimmed(raw@).len() == 0 ==> p == Plan::Clear && final(self).last_query@.len() == 0,
            trimmed(raw@).len() > 0 ==> final(self).last_query == old(self).last_query,
            trimmed(raw@).len() > 0 ==> (p matches Plan::Run { query, delay_ms, generation } && query@ == trimmed(raw@)
                && delay_ms == (if immediate { 0 } else { DEBOUNCE_MS }) && generation == final(self).generation),
    {
        self.generation = self.generation.wrapping_add(1);
        let q = trim_str(raw);
        if q.len() == 0 {
            self.last_query = String::new();
            return Plan::Clear;
        }
        Plan::Run {
            query: string_of(&q),
            delay_ms: if immediate { 0 } else { DEBOUNCE_MS },
            generation: self.generation,
        }
    }

    /// The delay elapsed. True when the search should run now: no newer edit happened and
    /// the query differs from the last one run.
    pub fn fire(&mut self, generation: u64, query: &str) -> (run: bool)
        ensures
            run == fire_runs(*old(self), generation, query@),
            final(self).generation == old(self).generation,
            run ==> final(self).last_query@ == query@,
            !run ==> final(self).last_query == old(self).last_query,
    {
        if generation != self.generation {
            return false;
        }
        let q = crate::text::owned(query);
        if q == self.last_query {
            return false;
        }
        self.last_query = q;
        true
    }

    /// True while no newer edit has happened since `generation` was planned, so its results
    /// may still be shown.
    pub fn is_current(&self, generation: u64) -> (r: bool)
        ensures
            r == (generation == self.generation),
    {
        generation == self.generation
    }

    /// Forgets everything (the screen was closed).
    pub fn reset(&mut self)
        ensures
            final(self).generation == next_generation(old(self).generation),
            final(self).last_query@.len() == 0,
    {
        self.generation = self.generation.wrapping_add(1);
        self.last_query = String::new();
    }
}

/// The stamp over the grid.
#[derive(Clone, Copy, Debug, PartialEq, Eq, Structural)]
pub enum Results {
    /// Blank query.
    Idle,
    Loading,
    Found(usize),
    Failed,
}

impl Results {
    /// `LOADING`, `NO RESULTS` or `REQUEST FAILED`; nothing while idle or with results.
    pub fn stamp(&self) -> (r: Option<&'static str>)
        ensures
            match *self {
                Results::Idle => r is None,
                Results::Loading => r is Some && r.unwrap()@ == "LOADING"@,
                Results::Found(n) => if n == 0 { r is Some && r.unwrap()@ == "NO RESULTS"@ } else { r is None },
                Results::Failed => r is Some && r.unwrap()@ == "REQUEST FAILED"@,
            },
    {
        match self {
            Results::Idle => None,
            Results::Loading => Some("LOADING"),
            Results::Found(n) => if *n == 0 { Some("NO RESULTS") } else { None },
            Results::Failed => Some("REQUEST FAILED"),
        }
    }
}

/// What BACK does on the Search screen.
#[derive(Clone, Copy, Debug, PartialEq, Eq, Structural)]
pub enum Back {
    /// From the grid: return focus to the input first.
    FocusInput,
    /// From the input: leave the screen.
    Leave,
}

/// BACK from the grid with results returns to the input; otherwise it leaves.
pub fn back(in_grid: bool, results: usize) -> (b: Back)
    ensures
        b == (if in_grid && results > 0 { Back::FocusInput } else { Back::Leave }),
{
    if in_grid && results > 0 {
        Back::FocusInput
    } else {
        Back::Leave
    }
}

/// The input above the grid.
pub fn zones(results: usize, columns: usize) -> (z: Vec<Zone>)
    ensures
        z@ == seq![
            Zone { id: ZoneId(INPUT), layout: Layout::Row, items: 1, text: true, preferred: 0 },
            Zone { id: ZoneId(GRID), layout: Layout::Grid(columns), items: results, text: false, preferred: 0 },
        ],
{
    let mut z: Vec<Zone> = Vec::new();
    z.push(Zone::row(ZoneId(INPUT), 1).text());
    z.push(Zone::grid(ZoneId(GRID), columns, results));
    z
}

} // verus!
