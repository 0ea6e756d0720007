//! The Queue screen: each job row is one focus zone holding its action buttons, so Up
//! and Down move between jobs and Left and Right between actions.
use vstd::prelude::*;

use crate::focus::{Focus, Layout, Zone, ZoneId};

verus! {

/// Job row `i` is zone `ROWS + i`.
pub const ROWS: i32 = 1000;
/// Rows the screen shows (and zones it allocates).
pub const MAX_ROWS: usize = 500;
/// CLEAR FINISHED.
pub const FOOTER: i32 = 30;

pub const NOTHING_QUEUED: &'static str = "NOTHING QUEUED";
pub const WORKING: &'static str = "WORKING";
pub const IDLE: &'static str = "IDLE";
pub const CLEAR_FINISHED: &'static str = "CLEAR FINISHED";

/// A button on a job row.
#[derive(Clone, Copy, Debug, PartialEq, Eq, Structural)]
pub enum Action {
    Retry,
    Remove,
    Cancel,
}

impl Action {
    pub fn label(self) -> (r: &'static str)
        ensures
            r@ == match self {
                Action::Retry => "RETRY"@,
                Action::Remove => "REMOVE"@,
                Action::Cancel => "CANCEL"@,
            },
    {
        match self {
            Action::Retry => "RETRY",
            Action::Remove => "REMOVE",
            Action::Cancel => "CANCEL",
        }
    }
}

/// How the state text is coloured: Done in the success colour, Failed in primary text,
/// the rest secondary.
#[derive(Clone, Copy, Debug, PartialEq, Eq, Structural)]
pub enum Tone {
    Normal,
    Success,
    Alert,
}

/// Where a job stands, as far as its row's buttons go.
#[derive(Debug, PartialEq, Eq)]
pub enum JobState {
    /// Waiting, downloading or uploading.
    Active,
    Done,
    Cancelled,
    /// Failed, with the reason.
    Failed(String),
}

/// RETRY + REMOVE for a failed job, REMOVE for a done or cancelled one, else CANCEL.
pub open spec fn actions_spec(state: JobState) -> Seq<Action> {
    match state {
        JobState::Failed(_) => seq![Action::Retry, Action::Remove],
        JobState::Done | JobState::Cancelled => seq![Action::Remove],
        JobState::Active => seq![Action::Cancel],
    }
}

/// The buttons of a job row.
pub fn actions(state: &JobState) -> (r: Vec<Action>)
    ensures
        r@ == actions_spec(*state),
{
    let mut r: Vec<Action> = Vec::new();
    match state {
        JobState::Failed(_) => {
            r.push(Action::Retry);
            r.push(Action::Remove);
        },
        JobState::Done | JobState::Cancelled => r.push(Action::Remove),
        JobState::Active => r.push(Action::Cancel),
    }
    r
}

/// The tone of a job's state text.
pub fn tone(state: &JobState) -> (t: Tone)
    ensures
        t == match *state {
            JobState::Done => Tone::Success,
            JobState::Failed(_) => Tone::Alert,
            _ => Tone::Normal,
        },
{
    match state {
        JobState::Done => Tone::Success,
        JobState::Failed(_) => Tone::Alert,
        _ => Tone::Normal,
    }
}

/// The zone id of job row `i` (rows past the last shown one share its zone).
pub open spec fn row_zone_spec(i: usize) -> ZoneId {
    ZoneId((ROWS + (if i <= MAX_ROWS { i as int } else { MAX_ROWS as int })) as i32)
}

/// The zone of job row `i`.
pub fn row_zone(i: usize) -> (z: ZoneId)
    ensures
        z == row_zone_spec(i),
{
    let r: i32 = if i <= MAX_ROWS { i as i32 } else { MAX_ROWS as i32 };
    ZoneId(ROWS + r)
}

/// The job row index of a zone.
pub fn zone_row(zone: ZoneId) -> (r: Option<usize>)
    ensures
        r == (if ROWS <= zone.0 < ROWS + MAX_ROWS { Some((zone.0 - ROWS) as usize) } else { None::<usize> }),
{
    if zone.0 >= ROWS && zone.0 < ROWS + 500 {
        Some((zone.0 - ROWS) as usize)
    } else {
        None
    }
}

/// A shown row's zone gives the row back.
pub proof fn law_row_zone_round_trip(i: usize)
    requires
        i < MAX_ROWS,
    ensures
        row_zone_spec(i).0 - ROWS == i,
        ROWS <= row_zone_spec(i).0 < ROWS + MAX_ROWS,
{
}

/// One zone per job row (its actions, `action_counts[i]` of them), then the footer.
pub fn zones(action_counts: &Vec<usize>) -> (z: Vec<Zone>)
    ensures
        z@.len() == action_counts@.len() + 1,
        forall|i: int| 0 <= i < action_counts@.len() ==> #[trigger] z@[i] == (Zone {
            id: row_zone_spec(i as usize),
            layout: Layout::Row,
            items: action_counts@[i],
            text: false,
            preferred: 0,
        }),
        z@.last() == (Zone { id: ZoneId(FOOTER), layout: Layout::Row, items: 1, text: false, preferred: 0 }),
{
    let mut z: Vec<Zone> = Vec::new();
    let mut i: usize = 0;
    while i < action_counts.len()
        invariant
            i <= action_counts@.len(),
            z@.len() == i,
            forall|j: int| 0 <= j < i ==> #[trigger] z@[j] == (Zone {
                id: row_zone_spec(j as usize),
                layout: Layout::Row,
                items: action_counts@[j],
                text: false,
                preferred: 0,
            }),
        decreases action_counts@.len() - i,
    {
        z.push(Zone::row(row_zone(i), action_counts[i]));
        i = i + 1;
    }
    z.push(Zone::row(ZoneId(FOOTER), 1));
    z
}

/// The focus on row `i` of `after`, its action clamped, when that row has actions.
pub open spec fn clamp_spec(after: Seq<(u128, usize)>, i: int, index: usize) -> Option<Focus> {
    let len = if 0 <= i < after.len() { after[i].1 } else { 0 };
    if len > 0 {
        Some(Focus { zone: row_zone_spec(i as usize), index: if index < len { index } else { (len - 1) as usize } })
    } else {
        None
    }
}

/// The position of the first row with job `id`.
pub open spec fn row_of(after: Seq<(u128, usize)>, id: u128) -> int {
    choose|i: int| 0 <= i < after.len() && (#[trigger] after[i]).0 == id && forall|j: int| 0 <= j < i ==> (#[trigger] after[j]).0 != id
}

/// Where focus goes after the list changed: the same job (its action clamped), else the
/// row now at the old position (or the new last row), else the footer.
pub open spec fn refocus_spec(before: Seq<u128>, focus: Option<Focus>, after: Seq<(u128, usize)>) -> Option<Focus> {
    match focus {
        None => None,
        Some(f) => if !(ROWS <= f.zone.0 < ROWS + MAX_ROWS) {
            Some(f)
        } else {
            let old = f.zone.0 - ROWS;
            let same = if old < before.len() && exists|i: int| 0 <= i < after.len() && (#[trigger] after[i]).0 == before[old] {
                clamp_spec(after, row_of(after, before[old]), f.index)
            } else {
                None
            };
            if same is Some {
                same
            } else {
                let last = if after.len() > 0 { after.len() - 1 } else { 0 };
                let near = clamp_spec(after, if old < last { old } else { last }, f.index);
                if near is Some { near } else { Some(Focus { zone: ZoneId(FOOTER), index: 0 }) }
            }
        },
    }
}

/// Focus follows its job: when the job focused on row `old` is now first listed at row `k`
/// with actions, focus moves to row `k`, on the same action or the row's last one; when the
/// job is gone, it stays at the old row (or the new last row), else goes to the footer.
pub proof fn law_focus_follows_the_job(before: Seq<u128>, f: Focus, after: Seq<(u128, usize)>, k: int)
    requires
        ROWS <= f.zone.0 < ROWS + MAX_ROWS,
        f.zone.0 - ROWS < before.len(),
        0 <= k < after.len(),
        after[k].0 == before[f.zone.0 - ROWS],
        forall|j: int| 0 <= j < k ==> (#[trigger] after[j]).0 != after[k].0,
        after[k].1 > 0,
        k <= MAX_ROWS,
    ensures
        refocus_spec(before, Some(f), after) == Some(Focus {
            zone: ZoneId((ROWS + k) as i32),
            index: if f.index < after[k].1 { f.index } else { (after[k].1 - 1) as usize },
        }),
{
    let id = after[k].0;
    let r = row_of(after, id);
    assert(0 <= r < after.len() && after[r].0 == id && forall|j: int| 0 <= j < r ==> (#[trigger] after[j]).0 != id);
    if r < k {
    } else if r > k {
        assert(after[k].0 != id);
    }
    assert(r == k);
}

/// When the focused job is no longer listed, focus stays at its old row (or the new last
/// row when the list got shorter), on the same action or that row's last one; when that row
/// has no actions, it goes to the footer.
pub proof fn law_focus_stays_near_a_gone_job(before: Seq<u128>, f: Focus, after: Seq<(u128, usize)>)
    requires
        ROWS <= f.zone.0 < ROWS + MAX_ROWS,
        f.zone.0 - ROWS < before.len(),
        forall|j: int| 0 <= j < after.len() ==> (#[trigger] after[j]).0 != before[f.zone.0 - ROWS],
        after.len() <= MAX_ROWS,
    ensures
        ({
            let old = f.zone.0 - ROWS;
            let row = if old < after.len() { old } else { after.len() - 1 };
            &&& after.len() > 0 && after[row].1 > 0 ==> refocus_spec(before, Some(f), after) == Some(Focus {
                zone: ZoneId((ROWS + row) as i32),
                index: if f.index < after[row].1 { f.index } else { (after[row].1 - 1) as usize },
            })
            &&& (after.len() == 0 || after[row].1 == 0) ==> refocus_spec(before, Some(f), after) == Some(Focus { zone: ZoneId(FOOTER), index: 0 })
        }),
{
}

fn clamp_exec(after: &Vec<(u128, usize)>, i: usize, index: usize) -> (r: Option<Focus>)
    ensures
        r == clamp_spec(after@, i as int, index),
{
    let len = if i < after.len() { after[i].1 } else { 0 };
    if len > 0 {
        Some(Focus { zone: row_zone(i), index: if index < len { index } else { len - 1 } })
    } else {
        None
    }
}

/// Where focus goes after the list changed. `before` holds the job ids of the rows as they
/// were, `after` the id and the number of actions of each row now.
pub fn refocus(before: &Vec<u128>, focus: Option<Focus>, after: &Vec<(u128, usize)>) -> (r: Option<Focus>)
    ensures
        r == refocus_spec(before@, focus, after@),
{
    let f = match focus {
        None => {
            return None;
        },
        Some(f) => f,
    };
    let old = match zone_row(f.zone) {
        None => {
            return Some(f);
        },
        Some(o) => o,
    };
    let mut same: Option<Focus> = None;
    if old < before.len() {
        let id = before[old];
        let mut i: usize = 0;
        while i < after.len() && after[i].0 != id
            invariant
                i <= after@.len(),
                forall|j: int| 0 <= j < i ==> (#[trigger] after@[j]).0 != id,
            decreases after@.len() - i,
        {
            i = i + 1;
        }
        if i < after.len() {
            proof {
                let k = i as int;
                assert(after@[k].0 == id);
                let p = row_of(after@, id);
                assert(0 <= p < after@.len() && after@[p].0 == id && forall|j: int| 0 <= j < p ==> (#[trigger] after@[j]).0 != id);
                assert(p == k) by {
                    if p < k {
                        assert(after@[p].0 != id);
                    } else if p > k {
                        assert(after@[k].0 != id);
                    }
                }
            }
            same = clamp_exec(after, i, f.index);
        }
    }
    if same.is_some() {
        return same;
    }
    let last: usize = if after.len() > 0 { after.len() - 1 } else { 0 };
    let near = clamp_exec(after, if old < last { old } else { last }, f.index);
    if near.is_some() {
        near
    } else {
        Some(Focus { zone: ZoneId(FOOTER), index: 0 })
    }
}


/// A job that is done, failed or cancelled: nothing more happens to it.
pub open spec fn finished(s: JobState) -> bool {
    !(s is Active)
}

/// The number of unfinished jobs.
pub open spec fn pending_spec(states: Seq<JobState>) -> nat
    decreases states.len(),
{
    if states.len() == 0 {
        0
    } else {
        pending_spec(states.drop_last()) + if finished(states.last()) { 0nat } else { 1nat }
    }
}

proof fn lemma_pending_bound(states: Seq<JobState>)
    ensures
        pending_spec(states) <= states.len(),
    decreases states.len(),
{
    if states.len() > 0 {
        lemma_pending_bound(states.drop_last());
    }
}

/// Jobs not finished yet: the top bar's `QUEUE (n)`.
pub fn pending(states: &Vec<JobState>) -> (n: usize)
    ensures
        n == pending_spec(states@),
{
    let mut n: usize = 0;
    let mut i: usize = 0;
    while i < states.len()
        invariant
            i <= states@.len(),
            n == pending_spec(states@.take(i as int)),
        decreases states@.len() - i,
    {
        proof {
            assert(states@.take(i + 1).drop_last() =~= states@.take(i as int));
            lemma_pending_bound(states@.take(i as int));
        }
        match &states[i] {
            JobState::Active => {
                n = n + 1;
            },
            _ => {},
        }
        i = i + 1;
    }
    assert(states@.take(states@.len() as int) =~= states@);
    n
}

/// `WORKING` while any job is unfinished, else `IDLE`.
pub fn footer(states: &Vec<JobState>) -> (r: &'static str)
    ensures
        r@ == (if pending_spec(states@) > 0 { "WORKING"@ } else { "IDLE"@ }),
{
    if pending(states) > 0 {
        WORKING
    } else {
        IDLE
    }
}

/// True when the list went from having unfinished jobs to having none: the queue drained,
/// so the library is refreshed.
pub fn drained(before: &Vec<JobState>, after: &Vec<JobState>) -> (r: bool)
    ensures
        r == (pending_spec(before@) > 0 && pending_spec(after@) == 0),
{
    pending(before) > 0 && pending(after) == 0
}

} // verus!
