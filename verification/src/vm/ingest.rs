//! Details ingest mode and the ingest dialogs (paste links, local files, 4KHDHub): the
//! episode selection, the action bar, the dialog rows and zones and the jobs they queue.
use vstd::prelude::*;

use crate::focus::{Focus, Layout, Zone, ZoneId};
use crate::model::{title_key, EpisodeKey, MediaType, TmdbId};
use crate::text::{decimal, push_decimal, push_str, string_of, trim_str, trimmed};

verus! {

/// The action bar's buttons, left to right.
pub const VIDLINK: usize = 0;
pub const PASTE_LINKS: usize = 1;
pub const LOCAL_FILES: usize = 2;
pub const HUB: usize = 3;
pub const BAR_LEN: usize = 4;

/// Dialog rows get one zone per cell so text fields and buttons can share a row: cell
/// `col` of row `row` is zone `base + row * ROW_STRIDE + col`.
pub const ROW_STRIDE: i32 = 4;
/// Rows a dialog can hold, which keeps the zone ranges apart.
pub const MAX_ROWS: usize = 200;

/// Paste links: episode field (TV), URL field, REMOVE.
pub const PASTE_ROWS: i32 = 2000;
/// Local files: episode field (TV), tag, REMOVE.
pub const FILES_ROWS: i32 = 3000;

pub const PASTE_FOOTER: i32 = 80;
pub const FILES_FOOTER: i32 = 83;
pub const HUB_URL: i32 = 86;
pub const HUB_LOAD: i32 = 87;
pub const HUB_VARIANTS: i32 = 88;
pub const HUB_SKIP: i32 = 89;
pub const HUB_FOOTER: i32 = 90;

/// Columns of a dialog row.
pub const COL_EPISODE: usize = 0;
pub const COL_MAIN: usize = 1;
pub const COL_REMOVE: usize = 2;

/// The zone id of one dialog cell: rows past the last share its zones, and a column too
/// large for a zone id counts as column 0.
pub open spec fn cell_zone_spec(base: i32, row: usize, col: usize) -> int {
    base + (if row <= MAX_ROWS { row as int } else { MAX_ROWS as int }) * ROW_STRIDE + (if col
        <= i32::MAX { col as int } else { 0 })
}

/// The zone of one dialog cell.
pub fn cell_zone(base: i32, row: usize, col: usize) -> (z: ZoneId)
    requires
        i32::MIN <= cell_zone_spec(base, row, col) <= i32::MAX,
    ensures
        z.0 == cell_zone_spec(base, row, col),
{
    let r: i32 = if row <= MAX_ROWS { row as i32 } else { MAX_ROWS as i32 };
    let c: i32 = if col <= i32::MAX as usize { col as i32 } else { 0 };
    ZoneId(base + r * ROW_STRIDE + c)
}

/// The `(row, col)` of a dialog cell zone under `base`.
pub open spec fn zone_cell_spec(base: i32, zone: ZoneId) -> Option<(usize, usize)> {
    let offset = zone.0 - base;
    if offset < i32::MIN || offset > i32::MAX || offset < 0 || offset >= MAX_ROWS * ROW_STRIDE {
        None
    } else {
        Some(((offset / (ROW_STRIDE as int)) as usize, (offset % (ROW_STRIDE as int)) as usize))
    }
}

/// The `(row, col)` of a dialog cell zone under `base`.
pub fn zone_cell(base: i32, zone: ZoneId) -> (r: Option<(usize, usize)>)
    ensures
        r == zone_cell_spec(base, zone),
{
    let offset = match zone.0.checked_sub(base) {
        Some(o) => o,
        None => {
            return None;
        },
    };
    if offset < 0 || offset >= 800 {
        return None;
    }
    Some(((offset / ROW_STRIDE) as usize, (offset % ROW_STRIDE) as usize))
}

/// A cell's zone gives the cell back.
pub proof fn law_cell_zone_round_trip(base: i32, row: usize, col: usize)
    requires
        row < MAX_ROWS,
        col < ROW_STRIDE,
        i32::MIN <= cell_zone_spec(base, row, col) <= i32::MAX,
    ensures
        zone_cell_spec(base, ZoneId(cell_zone_spec(base, row, col) as i32)) == Some((row, col)),
{
    let off = row * ROW_STRIDE + col;
    assert(off / 4 == row && off % 4 == col) by (nonlinear_arith)
        requires
            off == row * 4 + col,
            0 <= col < 4,
            0 <= row,
    ;
}

/// The zones the ingest dialogs own: their cells and their fixed zones.
pub open spec fn dialog_zone_spec(zone: ZoneId) -> bool {
    ||| zone_cell_spec(PASTE_ROWS, zone) is Some
    ||| zone_cell_spec(FILES_ROWS, zone) is Some
    ||| zone.0 == PASTE_FOOTER || zone.0 == FILES_FOOTER || zone.0 == HUB_URL || zone.0 == HUB_LOAD
    ||| zone.0 == HUB_VARIANTS || zone.0 == HUB_SKIP || zone.0 == HUB_FOOTER
}

/// True for the zones the ingest dialogs own.
pub fn dialog_zone(zone: ZoneId) -> (r: bool)
    ensures
        r == dialog_zone_spec(zone),
{
    zone_cell(PASTE_ROWS, zone).is_some() || zone_cell(FILES_ROWS, zone).is_some() || zone.0
        == PASTE_FOOTER || zone.0 == FILES_FOOTER || zone.0 == HUB_URL || zone.0 == HUB_LOAD
        || zone.0 == HUB_VARIANTS || zone.0 == HUB_SKIP || zone.0 == HUB_FOOTER
}

// ---------------------------------------------------------------------------------------
// The selection

/// Strictly ascending.
pub open spec fn ascending(s: Seq<u32>) -> bool {
    forall|i: int, j: int| 0 <= i < j < s.len() ==> s[i] < s[j]
}

/// The selected episode numbers of the current season.
#[derive(Debug, PartialEq, Eq)]
pub struct Selection {
    items: std::collections::BTreeSet<u32>,
}

impl View for Selection {
    type V = Set<u32>;

    closed spec fn view(&self) -> Set<u32> {
        self.items@
    }
}

impl Default for Selection {
    fn default() -> (s: Selection)
        ensures
            s@ == Set::<u32>::empty(),
    {
        Selection { items: std::collections::BTreeSet::new() }
    }
}

/// A `BTreeSet` of episode numbers walks them in ascending order.
proof fn lemma_keys_ascending(m: &std::collections::BTreeSet<u32>)
    ensures
        ascending(vstd::std_specs::iter::IteratorSpec::remaining(&vstd::std_specs::btree::spec_btree_keys_iter(m)).unref()),
{
    let rem = vstd::std_specs::iter::IteratorSpec::remaining(&vstd::std_specs::btree::spec_btree_keys_iter(m));
    assert(vstd::std_specs::btree::increasing_seq(rem));
    assert forall|i: int, j: int| 0 <= i < j < rem.len() implies rem.unref()[i] < rem.unref()[j] by {
        assert(vstd::std_specs::cmp::OrdSpec::cmp_spec(&rem[i], &rem[j]) is Less);
    }
}

impl Selection {
    /// Flips `episode`; returns whether it is now selected.
    pub fn toggle(&mut self, episode: u32) -> (selected: bool)
        ensures
            selected == !old(self)@.contains(episode),
            final(self)@ == (if selected { old(self)@.insert(episode) } else { old(self)@.remove(episode) }),
    {
        if self.items.contains(&episode) {
            self.items.remove(&episode);
            false
        } else {
            self.items.insert(episode);
            true
        }
    }

    /// Selects every listed episode.
    pub fn select_all(&mut self, episodes: &Vec<u32>)
        ensures
            final(self)@ == old(self)@.union(episodes@.to_set()),
    {
        let mut k: usize = 0;
        while k < episodes.len()
            invariant
                k <= episodes@.len(),
                self@ == old(self)@.union(episodes@.take(k as int).to_set()),
            decreases episodes@.len() - k,
        {
            let e = episodes[k];
            if !self.contains(e) {
                self.toggle(e);
            }
            proof {
                assert(episodes@.take(k + 1) == episodes@.take(k as int).push(e));
                episodes@.take(k as int).lemma_push_to_set_commute(e);
                assert(episodes@.take(k + 1).to_set() =~= episodes@.take(k as int).to_set().insert(e));
                assert(self@ =~= old(self)@.union(episodes@.take(k + 1).to_set()));
            }
            k = k + 1;
        }
        assert(episodes@.take(episodes@.len() as int) == episodes@);
    }

    /// Clears the selection.
    pub fn clear(&mut self)
        ensures
            final(self)@ == Set::<u32>::empty(),
    {
        self.items.clear();
    }

    pub fn contains(&self, episode: u32) -> (r: bool)
        ensures
            r == self@.contains(episode),
    {
        self.items.contains(&episode)
    }

    /// The number of selected episodes.
    pub fn len(&self) -> (n: usize)
        ensures
            n == self@.len(),
    {
        self.items.len()
    }

    pub fn is_empty(&self) -> (r: bool)
        ensures
            r == (self@.len() == 0),
    {
        self.len() == 0
    }

    /// The selected episodes, ascending.
    pub fn sorted(&self) -> (r: Vec<u32>)
        ensures
            ascending(r@),
            r@.to_set() == self@,
    {
        let mut out: Vec<u32> = Vec::new();
        let ghost keys: Seq<u32> = vstd::std_specs::iter::IteratorSpec::remaining(
            &vstd::std_specs::btree::spec_btree_keys_iter(&self.items),
        ).unref();
        let ghost mut n: int = 0;
        for x in it: self.items.iter()
            invariant
                it.seq().unref() == keys,
                n == it.index(),
                out@ == keys.take(n),
        {
            out.push(*x);
            proof {
                assert(keys.take(n + 1) =~= keys.take(n).push(*x));
                n = n + 1;
            }
        }
        proof {
            assert(keys.take(n) == keys);
            lemma_keys_ascending(&self.items);
        }
        out
    }
}

/// Two ascending sequences with the same elements are the same sequence: the selection's
/// order is determined by what it holds.
pub proof fn law_sorted_is_determined(a: Seq<u32>, b: Seq<u32>)
    requires
        ascending(a),
        ascending(b),
        a.to_set() == b.to_set(),
    ensures
        a == b,
    decreases a.len() + b.len(),
{
    if a.len() == 0 || b.len() == 0 {
        if a.len() > 0 {
            assert(a.to_set().contains(a[0]));
            assert(b.contains(a[0]));
        }
        if b.len() > 0 {
            assert(b.to_set().contains(b[0]));
            assert(a.contains(b[0]));
        }
        assert(a =~= b);
    } else {
        let x = a.last();
        let y = b.last();
        assert(a.to_set().contains(x));
        assert(b.contains(x));
        assert(b.to_set().contains(y));
        assert(a.contains(y));
        let i = choose|i: int| 0 <= i < b.len() && b[i] == x;
        let j = choose|j: int| 0 <= j < a.len() && a[j] == y;
        if i < b.len() - 1 {
            assert(x < y);
            assert(a[j] <= a[a.len() - 1]) by {
                if j < a.len() - 1 {
                }
            }
        }
        if j < a.len() - 1 {
            assert(y < x);
            assert(b[i] <= b[b.len() - 1]) by {
                if i < b.len() - 1 {
                }
            }
        }
        assert(x == y);
        let a1 = a.drop_last();
        let b1 = b.drop_last();
        assert forall|z: u32| a1.to_set().contains(z) <==> b1.to_set().contains(z) by {
            if a1.contains(z) {
                let k = choose|k: int| 0 <= k < a1.len() && a1[k] == z;
                assert(a[k] < x);
                assert(a.contains(z));
                assert(b.to_set().contains(z));
                let m = choose|m: int| 0 <= m < b.len() && b[m] == z;
                assert(m != b.len() - 1);
                assert(b1[m] == z);
            }
            if b1.contains(z) {
                let k = choose|k: int| 0 <= k < b1.len() && b1[k] == z;
                assert(b[k] < y);
                assert(b.contains(z));
                assert(a.to_set().contains(z));
                let m = choose|m: int| 0 <= m < a.len() && a[m] == z;
                assert(m != a.len() - 1);
                assert(a1[m] == z);
            }
        }
        assert(a1.to_set() =~= b1.to_set());
        law_sorted_is_determined(a1, b1);
        assert(a =~= a1.push(x));
        assert(b =~= b1.push(y));
    }
}


// ---------------------------------------------------------------------------------------
// What the dialogs work on

/// HDR kind of a file.
#[derive(Clone, Copy, Debug, PartialEq, Eq, Structural)]
pub enum Tag {
    Sdr,
    Hdr,
    Dv,
}

/// `SDR`, `HDR` or `DV`.
pub fn tag_label(tag: Tag) -> (r: &'static str)
    ensures
        r@ == match tag {
            Tag::Sdr => "SDR"@,
            Tag::Hdr => "HDR"@,
            Tag::Dv => "DV"@,
        },
{
    match tag {
        Tag::Sdr => "SDR",
        Tag::Hdr => "HDR",
        Tag::Dv => "DV",
    }
}

/// SDR → HDR → DV → SDR.
pub fn next_tag(tag: Tag) -> (r: Tag)
    ensures
        r == match tag {
            Tag::Sdr => Tag::Hdr,
            Tag::Hdr => Tag::Dv,
            Tag::Dv => Tag::Sdr,
        },
{
    match tag {
        Tag::Sdr => Tag::Hdr,
        Tag::Hdr => Tag::Dv,
        Tag::Dv => Tag::Sdr,
    }
}

/// Where a job's file comes from.
#[derive(Debug, PartialEq, Eq)]
pub enum JobSource {
    /// The VidLink page of the title.
    Page,
    /// A pasted http(s) URL.
    Link(String),
    /// A local file.
    File(String),
    /// A 4KHDHub file.
    Hub { url: String, name: String },
}

/// One upload job.
#[derive(Debug, PartialEq, Eq)]
pub struct Job {
    pub key: EpisodeKey,
    pub title: String,
    pub source: JobSource,
    pub tag: Option<Tag>,
}

impl Job {
    /// `Title · S01 E05` / `Title · MOVIE`.
    pub fn label(&self) -> (r: String)
        ensures
            r@ == self.title@ + " · "@ + crate::vm::library::key_label_spec(self.key),
    {
        let mut out: Vec<char> = Vec::new();
        push_str(&mut out, self.title.as_str());
        push_str(&mut out, " · ");
        let k = crate::vm::library::key_label(self.key);
        push_str(&mut out, k.as_str());
        string_of(&out)
    }
}

/// The title, season and episodes an ingest action applies to.
#[derive(Debug, PartialEq, Eq)]
pub struct Target {
    pub id: TmdbId,
    pub media: MediaType,
    pub title: String,
    /// The selected season; 0 for movies.
    pub season: u32,
    /// The episodes listed for the season.
    pub episodes: Vec<u32>,
    /// The selected episodes, ascending.
    pub selected: Vec<u32>,
}

impl Target {
    /// The library key of `episode` (ignored for movies).
    pub open spec fn key_spec(&self, episode: u32) -> EpisodeKey {
        title_key(self.id, self.media, self.season, episode)
    }

    /// The library key of `episode` (ignored for movies).
    pub fn key(&self, episode: u32) -> (k: EpisodeKey)
        ensures
            k == self.key_spec(episode),
    {
        crate::model::key_of(self.id, self.media, self.season, episode)
    }

    /// The first episode the dialogs prefill: the lowest selected, else 1.
    pub fn start_episode(&self) -> (e: u32)
        ensures
            e == (if self.selected@.len() > 0 { self.selected@[0] } else { 1 }),
    {
        if self.selected.len() > 0 {
            self.selected[0]
        } else {
            1
        }
    }

    /// The episodes a 4KHDHub download wants: the selection, else the whole season.
    pub fn wanted(&self) -> (r: Vec<u32>)
        ensures
            r@ == (if self.selected@.len() == 0 { self.episodes@ } else { self.selected@ }),
    {
        let src = if self.selected.len() == 0 { &self.episodes } else { &self.selected };
        let mut out: Vec<u32> = Vec::new();
        let mut i: usize = 0;
        while i < src.len()
            invariant
                i <= src@.len(),
                out@ == src@.take(i as int),
            decreases src@.len() - i,
        {
            out.push(src[i]);
            i = i + 1;
        }
        assert(src@.take(src@.len() as int) == src@);
        out
    }

    /// `Title · Season 2` or `Title`, the dialogs' subtitle.
    pub fn subtitle(&self) -> (r: String)
        ensures
            r@ == match self.media {
                MediaType::Tv => self.title@ + " · Season "@ + decimal(self.season as nat),
                MediaType::Movie => self.title@,
            },
    {
        match self.media {
            MediaType::Tv => {
                let mut out: Vec<char> = Vec::new();
                push_str(&mut out, self.title.as_str());
                push_str(&mut out, " · Season ");
                push_decimal(&mut out, self.season as u64);
                string_of(&out)
            },
            MediaType::Movie => self.title.clone(),
        }
    }
}

/// How the action bar reads for the current title and selection.
#[derive(Debug, PartialEq, Eq)]
pub struct Bar {
    /// VIDLINK: always for a movie, only with a selection for TV.
    pub vidlink_enabled: bool,
    /// `4KHDHUB`, or `SEASON FROM 4KHDHUB` for TV with nothing selected.
    pub hub_label: &'static str,
    /// Off for TV while the season has no episodes.
    pub hub_enabled: bool,
    /// `3 SELECTED` for TV, empty for movies.
    pub selected: String,
}

/// The action bar for a title with `selected` of `episodes` episodes selected.
pub fn bar(media: MediaType, selected: usize, episodes: usize) -> (b: Bar)
    ensures
        match media {
            MediaType::Movie => b.vidlink_enabled && b.hub_label@ == "4KHDHUB"@ && b.hub_enabled && b.selected@.len() == 0,
            MediaType::Tv => {
                &&& b.vidlink_enabled == (selected > 0)
                &&& b.hub_label@ == (if selected == 0 { "SEASON FROM 4KHDHUB"@ } else { "4KHDHUB"@ })
                &&& b.hub_enabled == (episodes > 0)
                &&& b.selected@ == decimal(selected as nat) + " SELECTED"@
            },
        },
{
    match media {
        MediaType::Movie => Bar { vidlink_enabled: true, hub_label: "4KHDHUB", hub_enabled: true, selected: String::new() },
        MediaType::Tv => {
            let mut out: Vec<char> = Vec::new();
            push_decimal(&mut out, selected as u64);
            push_str(&mut out, " SELECTED");
            Bar {
                vidlink_enabled: selected > 0,
                hub_label: if selected == 0 { "SEASON FROM 4KHDHUB" } else { "4KHDHUB" },
                hub_enabled: episodes > 0,
                selected: string_of(&out),
            }
        },
    }
}

/// A job as its key, title and source kind, for contracts.
pub open spec fn page_job(t: Target, episode: u32) -> (EpisodeKey, Seq<char>) {
    (t.key_spec(episode), t.title@)
}

/// VIDLINK: page jobs for the selected episodes, or the movie.
pub fn page_jobs(t: &Target) -> (r: Vec<Job>)
    ensures
        t.media == MediaType::Movie ==> r@.len() == 1 && r@[0].key == t.key_spec(0),
        t.media == MediaType::Tv ==> r@.len() == t.selected@.len() && forall|i: int|
            0 <= i < r@.len() ==> (#[trigger] r@[i]).key == t.key_spec(t.selected@[i]),
        forall|i: int| 0 <= i < r@.len() ==> (#[trigger] r@[i]).title == t.title && r@[i].source == JobSource::Page && r@[i].tag is None,
{
    let mut out: Vec<Job> = Vec::new();
    match t.media {
        MediaType::Movie => {
            out.push(Job { key: t.key(0), title: t.title.clone(), source: JobSource::Page, tag: None });
        },
        MediaType::Tv => {
            let mut i: usize = 0;
            while i < t.selected.len()
                invariant
                    t.media == MediaType::Tv,
                    i <= t.selected@.len(),
                    out@.len() == i,
                    forall|j: int| 0 <= j < i ==> (#[trigger] out@[j]).key == t.key_spec(t.selected@[j]) && out@[j].title == t.title
                        && out@[j].source == JobSource::Page && out@[j].tag is None,
                decreases t.selected@.len() - i,
            {
                out.push(Job { key: t.key(t.selected[i]), title: t.title.clone(), source: JobSource::Page, tag: None });
                i = i + 1;
            }
        },
    }
    out
}

/// `QUEUE 3`.
pub fn queue_label(n: usize) -> (r: String)
    ensures
        r@ == "QUEUE "@ + decimal(n as nat),
{
    let mut out: Vec<char> = Vec::new();
    push_str(&mut out, "QUEUE ");
    push_decimal(&mut out, n as u64);
    string_of(&out)
}

/// `3 QUEUED`, shown under the bar after an action queued jobs.
pub fn queued_note(n: usize) -> (r: String)
    ensures
        r@ == decimal(n as nat) + " QUEUED"@,
{
    let mut out: Vec<char> = Vec::new();
    push_decimal(&mut out, n as u64);
    push_str(&mut out, " QUEUED");
    string_of(&out)
}

/// The value of a run of decimal digits.
pub open spec fn digits_value(s: Seq<char>) -> int
    decreases s.len(),
{
    if s.len() == 0 {
        0
    } else {
        digits_value(s.drop_last()) * 10 + (s.last() as int - '0' as int)
    }
}

/// Every character is a decimal digit.
pub open spec fn all_digits(s: Seq<char>) -> bool {
    forall|i: int| 0 <= i < s.len() ==> '0' <= #[trigger] s[i] <= '9'
}

/// `u32::from_str`: an optional `+`, then one or more digits whose value fits.
pub open spec fn parse_u32_spec(s: Seq<char>) -> Option<u32> {
    let d = if s.len() > 0 && s[0] == '+' { s.drop_first() } else { s };
    if d.len() > 0 && all_digits(d) && digits_value(d) <= u32::MAX {
        Some(digits_value(d) as u32)
    } else {
        None
    }
}

/// An episode number typed into a field: a positive integer, surrounding space ignored.
pub open spec fn parse_episode_spec(s: Seq<char>) -> Option<u32> {
    match parse_u32_spec(trimmed(s)) {
        Some(e) => if e > 0 { Some(e) } else { None },
        None => None,
    }
}

proof fn lemma_digits_prefix(s: Seq<char>, k: int)
    requires
        all_digits(s),
        0 <= k <= s.len(),
    ensures
        0 <= digits_value(s.take(k)) <= digits_value(s),
    decreases s.len(),
{
    if s.len() == 0 {
        assert(s.take(k) =~= s);
    } else if k == s.len() {
        assert(s.take(k) =~= s);
        lemma_digits_nonneg(s);
    } else {
        assert(all_digits(s.drop_last()));
        assert(s.drop_last().take(k) =~= s.take(k));
        lemma_digits_prefix(s.drop_last(), k);
    }
}

proof fn lemma_digits_nonneg(s: Seq<char>)
    requires
        all_digits(s),
    ensures
        digits_value(s) >= 0,
    decreases s.len(),
{
    if s.len() > 0 {
        assert(all_digits(s.drop_last()));
        lemma_digits_nonneg(s.drop_last());
    }
}

/// `u32::from_str` on characters.
pub fn parse_u32_chars(s: &Vec<char>) -> (r: Option<u32>)
    ensures
        r == parse_u32_spec(s@),
{
    let mut start: usize = 0;
    if s.len() > 0 && s[0] == '+' {
        start = 1;
    }
    let ghost d = if s@.len() > 0 && s@[0] == '+' { s@.drop_first() } else { s@ };
    assert(d =~= s@.skip(start as int));
    if start >= s.len() {
        return None;
    }
    let mut v: u64 = 0;
    let mut i: usize = start;
    while i < s.len()
        invariant
            start <= i <= s@.len(),
            d == s@.skip(start as int),
            d == (if s@.len() > 0 && s@[0] == '+' { s@.drop_first() } else { s@ }),
            d.len() > 0,
            all_digits(d.take(i - start)),
            v == digits_value(d.take(i - start)),
            v <= u32::MAX,
        decreases s@.len() - i,
    {
        let c = s[i];
        if c < '0' || c > '9' {
            proof {
                assert(d[i - start] == c);
                assert(!all_digits(d));
            }
            return None;
        }
        let digit: u64 = (c as u32 - '0' as u32) as u64;
        proof {
            assert(d.take(i + 1 - start).drop_last() =~= d.take(i - start));
            assert(d.take(i + 1 - start).last() == c);
        }
        let nv = v * 10 + digit;
        if nv > u32::MAX as u64 {
            proof {
                let t = d.take(i + 1 - start);
                assert(all_digits(t));
                assert(digits_value(t) == digits_value(t.drop_last()) * 10 + (t.last() as int - '0' as int));
                assert(digits_value(t) == nv);
                if all_digits(d) {
                    lemma_digits_prefix(d, i + 1 - start);
                }
            }
            return None;
        }
        v = nv;
        i = i + 1;
    }
    assert(d.take(s@.len() - start) =~= d);
    Some(v as u32)
}

/// An episode number typed into a field: a positive integer.
pub fn parse_episode(s: &str) -> (r: Option<u32>)
    ensures
        r == parse_episode_spec(s@),
{
    let t = trim_str(s);
    match parse_u32_chars(&t) {
        Some(e) => if e > 0 { Some(e) } else { None },
        None => None,
    }
}



// ---------------------------------------------------------------------------------------
// URLs

/// What `url::Url::parse` makes of a string: `None` when it is no absolute URL, else the
/// scheme, the host (when it has one) and the path segments (when it can be a base).
pub uninterp spec fn url_parts(s: Seq<char>) -> Option<(Seq<char>, Option<Seq<char>>, Option<Seq<Seq<char>>>)>;

/// The view of an optional string.
pub open spec fn opt_view(o: Option<String>) -> Option<Seq<char>> {
    match o {
        Some(s) => Some(s@),
        None => None,
    }
}

/// The views of a list of strings.
pub open spec fn views(v: Seq<String>) -> Seq<Seq<char>> {
    v.map_values(|s: String| s@)
}

/// `url::Url::parse`, then the URL's `scheme`, `host_str` and `path_segments`. The
/// result is named [`url_parts`] of the input.
#[verifier::external_body]
fn parse_url(s: &str) -> (r: Option<(String, Option<String>, Option<Vec<String>>)>)
    ensures
        r matches Some((scheme, host, segments)) ==> url_parts(s@) == Some((scheme@, opt_view(host), match segments {
            Some(v) => Some(views(v@)),
            None => None,
        })),
        r is None ==> url_parts(s@) is None,
{
    let u = url::Url::parse(s).ok()?;
    Some((
        u.scheme().to_owned(),
        u.host_str().map(|h| h.to_owned()),
        u.path_segments().map(|p| p.map(|x| x.to_owned()).collect()),
    ))
}

/// The URL when it is an absolute http(s) URL with a non-empty host (surrounding space
/// ignored).
pub open spec fn http_url_spec(s: Seq<char>) -> Option<Seq<char>> {
    let t = trimmed(s);
    match url_parts(t) {
        Some((scheme, host, _)) => if (scheme == "http"@ || scheme == "https"@) && host is Some && host.unwrap().len() > 0 {
            Some(t)
        } else {
            None
        },
        None => None,
    }
}

/// The URL when it is an absolute http(s) URL with a host.
pub fn http_url(s: &str) -> (r: Option<String>)
    ensures
        opt_view(r) == http_url_spec(s@),
{
    let t = string_of(&trim_str(s));
    match parse_url(t.as_str()) {
        Some((scheme, host, _)) => {
            let http = scheme == crate::text::owned("http") || scheme == crate::text::owned("https");
            let has_host = match &host {
                Some(h) => h.unicode_len() > 0,
                None => false,
            };
            if http && has_host {
                Some(t)
            } else {
                None
            }
        },
        None => None,
    }
}

/// The page's host, shown under the list; empty when it has none.
pub open spec fn host_spec(page: Seq<char>) -> Seq<char> {
    match url_parts(page) {
        Some((_, Some(h), _)) => h,
        _ => Seq::empty(),
    }
}

/// The page's host, shown under the list.
pub fn host(page: &str) -> (r: String)
    ensures
        r@ == host_spec(page@),
{
    match parse_url(page) {
        Some((_, Some(h), _)) => h,
        _ => String::new(),
    }
}

/// The last non-empty segment.
pub open spec fn last_nonempty(segs: Seq<Seq<char>>) -> Option<Seq<char>>
    decreases segs.len(),
{
    if segs.len() == 0 {
        None
    } else if segs.last().len() > 0 {
        Some(segs.last())
    } else {
        last_nonempty(segs.drop_last())
    }
}

/// `READING <last path segment>…`, the whole page when it has no such segment.
pub open spec fn hub_reading_spec(page: Seq<char>) -> Seq<char> {
    let last = match url_parts(page) {
        Some((_, _, Some(segs))) => match last_nonempty(segs) {
            Some(x) => x,
            None => page,
        },
        _ => page,
    };
    "READING "@ + crate::text::upper(last) + "…"@
}

/// `READING <last path segment>…`.
pub fn hub_reading(page: &str) -> (r: String)
    ensures
        r@ == hub_reading_spec(page@),
{
    let last: String = match parse_url(page) {
        Some((_, _, Some(segs))) => {
            let ghost sv = views(segs@);
            let mut i: usize = segs.len();
            assert(sv.take(segs@.len() as int) =~= sv);
            while i > 0 && segs[i - 1].unicode_len() == 0
                invariant
                    i <= segs@.len(),
                    sv == views(segs@),
                    last_nonempty(sv) == last_nonempty(sv.take(i as int)),
                decreases i,
            {
                assert(sv.take(i as int).drop_last() =~= sv.take(i - 1));
                i = i - 1;
            }
            if i > 0 {
                assert(sv.take(i as int).last() == segs@[i - 1]@);
                segs[i - 1].clone()
            } else {
                assert(sv.take(0) =~= Seq::<Seq<char>>::empty());
                crate::text::owned(page)
            }
        },
        _ => crate::text::owned(page),
    };
    let mut out: Vec<char> = Vec::new();
    push_str(&mut out, "READING ");
    let u = crate::text::to_upper(last.as_str());
    push_str(&mut out, u.as_str());
    push_str(&mut out, "…");
    string_of(&out)
}

// ---------------------------------------------------------------------------------------
// Paste links

/// One row: episode number (TV) and the pasted URL, both as typed.
#[derive(Debug, PartialEq, Eq)]
pub struct LinkRow {
    pub episode: String,
    pub url: String,
}

impl LinkRow {
    /// A copy of the row.
    pub fn duplicate(&self) -> (r: LinkRow)
        ensures
            r == *self,
    {
        LinkRow { episode: self.episode.clone(), url: self.url.clone() }
    }
}

/// A footer button of the paste and files dialogs.
#[derive(Clone, Copy, Debug, PartialEq, Eq, Structural)]
pub enum Footer {
    AddField,
    ChooseFiles,
    Load,
    Cancel,
    Queue,
}

/// ADD FIELD (TV), CANCEL, QUEUE N.
pub open spec fn paste_footer_spec(media: MediaType) -> Seq<Footer> {
    match media {
        MediaType::Tv => seq![Footer::AddField, Footer::Cancel, Footer::Queue],
        MediaType::Movie => seq![Footer::Cancel, Footer::Queue],
    }
}

/// The paste links footer: ADD FIELD (TV), CANCEL, QUEUE N.
pub fn paste_footer(media: MediaType) -> (r: Vec<Footer>)
    ensures
        r@ == paste_footer_spec(media),
{
    match media {
        MediaType::Tv => vec![Footer::AddField, Footer::Cancel, Footer::Queue],
        MediaType::Movie => vec![Footer::Cancel, Footer::Queue],
    }
}

/// The local files footer: CHOOSE FILES, CANCEL, QUEUE N.
pub fn files_footer() -> (r: Vec<Footer>)
    ensures
        r@ == seq![Footer::ChooseFiles, Footer::Cancel, Footer::Queue],
{
    vec![Footer::ChooseFiles, Footer::Cancel, Footer::Queue]
}

/// The 4KHDHub footer: CANCEL, QUEUE N.
pub fn hub_footer() -> (r: Vec<Footer>)
    ensures
        r@ == seq![Footer::Cancel, Footer::Queue],
{
    vec![Footer::Cancel, Footer::Queue]
}

/// The paste links dialog.
#[derive(Debug, PartialEq, Eq)]
pub struct PasteLinks {
    pub rows: Vec<LinkRow>,
}

/// The key and URL of the link jobs the rows give: every row with an http(s) URL and, for
/// TV, an episode number.
pub open spec fn link_jobs_spec(rows: Seq<LinkRow>, t: Target) -> Seq<(EpisodeKey, Seq<char>)>
    decreases rows.len(),
{
    if rows.len() == 0 {
        Seq::empty()
    } else {
        let rest = link_jobs_spec(rows.drop_last(), t);
        let r = rows.last();
        match http_url_spec(r.url@) {
            None => rest,
            Some(u) => match t.media {
                MediaType::Movie => rest.push((t.key_spec(0), u)),
                MediaType::Tv => match parse_episode_spec(r.episode@) {
                    Some(e) => rest.push((t.key_spec(e), u)),
                    None => rest,
                },
            },
        }
    }
}

/// The zones of `n` rows: per row the episode field (TV), the URL field and REMOVE (with
/// `remove` items).
pub open spec fn paste_row_zones(n: nat, media: MediaType, remove: usize) -> Seq<Zone>
    decreases n,
{
    if n == 0 {
        Seq::empty()
    } else {
        let i = (n - 1) as usize;
        let cells = seq![
            Zone { id: ZoneId(cell_zone_spec(PASTE_ROWS, i, COL_MAIN) as i32), layout: Layout::Row, items: 1, text: true, preferred: 0 },
            Zone { id: ZoneId(cell_zone_spec(PASTE_ROWS, i, COL_REMOVE) as i32), layout: Layout::Row, items: remove, text: false, preferred: 0 },
        ];
        paste_row_zones((n - 1) as nat, media, remove) + (if media == MediaType::Tv {
            seq![Zone { id: ZoneId(cell_zone_spec(PASTE_ROWS, i, COL_EPISODE) as i32), layout: Layout::Row, items: 1, text: true, preferred: 0 }] + cells
        } else {
            cells
        })
    }
}

impl PasteLinks {
    /// One empty row numbered `start` (the lowest selected episode, else 1).
    pub fn new(start: u32) -> (p: PasteLinks)
        ensures
            p.rows@.len() == 1,
            p.rows@[0].episode@ == decimal(start as nat),
            p.rows@[0].url@.len() == 0,
    {
        let row = LinkRow { episode: crate::text::decimal_string(start as u64), url: String::new() };
        PasteLinks { rows: vec![row] }
    }

    /// ADD FIELD: a row numbered one past the last row (1 when the last row holds no
    /// number). Returns it, or `None` when the dialog is full.
    pub fn add_field(&mut self) -> (r: Option<LinkRow>)
        requires
            old(self).rows@.len() > 0 ==> parse_episode_spec(old(self).rows@.last().episode@) != Some(u32::MAX),
        ensures
            old(self).rows@.len() >= MAX_ROWS ==> r is None && *final(self) == *old(self),
            old(self).rows@.len() < MAX_ROWS ==> {
                let next = if old(self).rows@.len() > 0 {
                    match parse_episode_spec(old(self).rows@.last().episode@) {
                        Some(e) => e + 1,
                        None => 1,
                    }
                } else {
                    1
                };
                &&& r is Some
                &&& r.unwrap().episode@ == decimal(next as nat)
                &&& r.unwrap().url@.len() == 0
                &&& final(self).rows@ == old(self).rows@.push(r.unwrap())
            },
    {
        if self.rows.len() >= MAX_ROWS {
            return None;
        }
        let n = self.rows.len();
        let prev: u32 = if n > 0 {
            match parse_episode(self.rows[n - 1].episode.as_str()) {
                Some(e) => e,
                None => 0,
            }
        } else {
            0
        };
        let row = LinkRow { episode: crate::text::decimal_string((prev + 1) as u64), url: String::new() };
        self.rows.push(row.duplicate());
        Some(row)
    }

    /// The last row cannot be removed.
    pub fn can_remove(&self) -> (r: bool)
        ensures
            r == (self.rows@.len() > 1),
    {
        self.rows.len() > 1
    }

    /// Removes row `index` unless it is the only one.
    pub fn remove(&mut self, index: usize) -> (r: bool)
        ensures
            r == (old(self).rows@.len() > 1 && index < old(self).rows@.len()),
            r ==> final(self).rows@ == old(self).rows@.remove(index as int),
            !r ==> *final(self) == *old(self),
    {
        if !self.can_remove() || index >= self.rows.len() {
            return false;
        }
        self.rows.remove(index);
        true
    }

    /// Row `index` now reads `text` in its episode field.
    pub fn set_episode(&mut self, index: usize, text: &str)
        ensures
            index < old(self).rows@.len() ==> final(self).rows@.len() == old(self).rows@.len() && final(self).rows@[index as int].episode@ == text@
                && final(self).rows@[index as int].url == old(self).rows@[index as int].url
                && forall|j: int| 0 <= j < old(self).rows@.len() && j != index ==> final(self).rows@[j] == old(self).rows@[j],
            index >= old(self).rows@.len() ==> *final(self) == *old(self),
    {
        if index < self.rows.len() {
            let url = self.rows[index].url.clone();
            self.rows.set(index, LinkRow { episode: crate::text::owned(text), url });
        }
    }

    /// Row `index` now reads `text` in its URL field.
    pub fn set_url(&mut self, index: usize, text: &str)
        ensures
            index < old(self).rows@.len() ==> final(self).rows@.len() == old(self).rows@.len() && final(self).rows@[index as int].url@ == text@
                && final(self).rows@[index as int].episode == old(self).rows@[index as int].episode
                && forall|j: int| 0 <= j < old(self).rows@.len() && j != index ==> final(self).rows@[j] == old(self).rows@[j],
            index >= old(self).rows@.len() ==> *final(self) == *old(self),
    {
        if index < self.rows.len() {
            let episode = self.rows[index].episode.clone();
            self.rows.set(index, LinkRow { episode, url: crate::text::owned(text) });
        }
    }

    /// Link jobs for every row with an http(s) URL (and, for TV, an episode number).
    pub fn jobs(&self, t: &Target) -> (r: Vec<Job>)
        ensures
            r@.len() == link_jobs_spec(self.rows@, *t).len(),
            forall|i: int| 0 <= i < r@.len() ==> {
                let j = #[trigger] r@[i];
                &&& j.key == link_jobs_spec(self.rows@, *t)[i].0
                &&& j.source matches JobSource::Link(u) && u@ == link_jobs_spec(self.rows@, *t)[i].1
                &&& j.title == t.title
                &&& j.tag is None
            },
    {
        let mut out: Vec<Job> = Vec::new();
        let mut i: usize = 0;
        while i < self.rows.len()
            invariant
                i <= self.rows@.len(),
                out@.len() == link_jobs_spec(self.rows@.take(i as int), *t).len(),
                forall|k: int| 0 <= k < out@.len() ==> {
                    let j = #[trigger] out@[k];
                    &&& j.key == link_jobs_spec(self.rows@.take(i as int), *t)[k].0
                    &&& j.source matches JobSource::Link(u) && u@ == link_jobs_spec(self.rows@.take(i as int), *t)[k].1
                    &&& j.title == t.title
                    &&& j.tag is None
                },
            decreases self.rows@.len() - i,
        {
            let ghost before = link_jobs_spec(self.rows@.take(i as int), *t);
            assert(self.rows@.take(i + 1).drop_last() =~= self.rows@.take(i as int));
            assert(self.rows@.take(i + 1).last() == self.rows@[i as int]);
            let row = &self.rows[i];
            match http_url(row.url.as_str()) {
                None => {},
                Some(u) => {
                    match t.media {
                        MediaType::Movie => {
                            out.push(Job { key: t.key(0), title: t.title.clone(), source: JobSource::Link(u), tag: None });
                        },
                        MediaType::Tv => {
                            match parse_episode(row.episode.as_str()) {
                                Some(e) => {
                                    out.push(Job { key: t.key(e), title: t.title.clone(), source: JobSource::Link(u), tag: None });
                                },
                                None => {},
                            }
                        },
                    }
                },
            }
            i = i + 1;
        }
        assert(self.rows@.take(self.rows@.len() as int) =~= self.rows@);
        out
    }

    /// The zones: per row the episode field (TV), URL field and REMOVE, then the footer
    /// (ADD FIELD for TV, CANCEL, QUEUE N).
    pub fn zones(&self, media: MediaType) -> (z: Vec<Zone>)
        ensures
            z@ == paste_row_zones(self.rows@.len(), media, if self.rows@.len() > 1 { 1 } else { 0 }).push(
                Zone { id: ZoneId(PASTE_FOOTER), layout: Layout::Row, items: paste_footer_spec(media).len() as usize, text: false, preferred: 0 },
            ),
    {
        let remove: usize = if self.can_remove() { 1 } else { 0 };
        let mut z: Vec<Zone> = Vec::new();
        let mut i: usize = 0;
        while i < self.rows.len()
            invariant
                i <= self.rows@.len(),
                remove == (if self.rows@.len() > 1 { 1usize } else { 0usize }),
                z@ == paste_row_zones(i as nat, media, remove),
            decreases self.rows@.len() - i,
        {
            let ghost before = z@;
            if media == MediaType::Tv {
                z.push(Zone::row(cell_zone(PASTE_ROWS, i, COL_EPISODE), 1).text());
            }
            z.push(Zone::row(cell_zone(PASTE_ROWS, i, COL_MAIN), 1).text());
            z.push(Zone::row(cell_zone(PASTE_ROWS, i, COL_REMOVE), remove));
            i = i + 1;
            assert(z@ =~= paste_row_zones(i as nat, media, remove));
        }
        let f = paste_footer(media);
        z.push(Zone::row(ZoneId(PASTE_FOOTER), f.len()));
        z
    }
}

// ---------------------------------------------------------------------------------------
// Texts and zones of the dialogs

/// Shortens `name` to `max` characters by cutting out its middle.
pub open spec fn middle_elide_spec(name: Seq<char>, max: usize) -> Seq<char> {
    if name.len() <= max || max < 5 {
        name
    } else {
        let keep = max - 1;
        let head = (keep + 1) / 2;
        let tail = keep - head;
        name.take(head) + seq!['…'] + name.skip(name.len() - tail)
    }
}

/// Shortens `name` to `max` characters by cutting out its middle.
pub fn middle_elide(name: &str, max: usize) -> (r: String)
    ensures
        r@ == middle_elide_spec(name@, max),
{
    let cs = crate::text::chars_of(name);
    if cs.len() <= max || max < 5 {
        return crate::text::owned(name);
    }
    let keep = max - 1;
    let head = (keep + 1) / 2;
    let tail = keep - head;
    let mut out: Vec<char> = Vec::new();
    let mut i: usize = 0;
    while i < head
        invariant
            i <= head < cs@.len(),
            out@ == cs@.take(i as int),
        decreases head - i,
    {
        out.push(cs[i]);
        i = i + 1;
    }
    out.push('…');
    let start = cs.len() - tail;
    let mut j: usize = start;
    while j < cs.len()
        invariant
            start <= j <= cs@.len(),
            out@ == cs@.take(head as int) + seq!['…'] + cs@.subrange(start as int, j as int),
        decreases cs@.len() - j,
    {
        out.push(cs[j]);
        j = j + 1;
        assert(out@ =~= cs@.take(head as int) + seq!['…'] + cs@.subrange(start as int, j as int));
    }
    assert(cs@.subrange(start as int, cs@.len() as int) =~= cs@.skip(start as int));
    string_of(&out)
}

/// 2 to the power `k`.
pub open spec fn two_pow(k: nat) -> nat
    decreases k,
{
    if k == 0 { 1 } else { 2 * two_pow((k - 1) as nat) }
}

/// The spacing of the doubles around `bytes`, from `2^k` on: 1 below 2^53, then doubling
/// with each bit past the 53 a double holds.
pub open spec fn double_spacing(bytes: nat, k: nat) -> nat
    decreases 64 - k,
{
    if k >= 64 || bytes < 0x20_0000_0000_0000 * two_pow(k) {
        two_pow(k)
    } else {
        double_spacing(bytes, k + 1)
    }
}

/// `bytes` as a double: the nearest multiple of the spacing there, halves to the even
/// multiple (exact below 2^53).
pub open spec fn as_double(bytes: u64) -> int {
    let u = double_spacing(bytes as nat, 0) as int;
    let q = bytes as int / u;
    let r = bytes as int % u;
    (if r * 2 > u || (r * 2 == u && q % 2 == 1) { q + 1 } else { q }) * u
}

/// Bytes in tenths of a binary gigabyte: the bytes as a double, divided by 2^30, rounded to
/// the nearest tenth (halves to even), as `{:.1}` prints the quotient.
pub open spec fn gb_tenths(bytes: u64) -> int {
    let v = as_double(bytes);
    let q = v * 10 / 0x4000_0000;
    let r = v * 10 % 0x4000_0000;
    if r > 0x2000_0000 || (r == 0x2000_0000 && q % 2 == 1) { q + 1 } else { q }
}

/// `2.0 GB`: bytes as binary gigabytes with one decimal.
pub open spec fn gb_spec(bytes: u64) -> Seq<char> {
    let t = gb_tenths(bytes);
    decimal((t / 10) as nat) + seq!['.', crate::text::digit_char(t % 10)] + " GB"@
}

/// Bytes as gigabytes with one decimal (the sizes are binary), the count taken as a double.
pub fn gb(bytes: u64) -> (r: String)
    ensures
        r@ == gb_spec(bytes),
{
    let b: u128 = bytes as u128;
    let mut u: u128 = 1;
    let mut k: u32 = 0;
    while k < 64 && b >= 0x20_0000_0000_0000 * u
        invariant
            k <= 64,
            u == two_pow(k as nat),
            1 <= u <= 0x1000,
            b == bytes,
            double_spacing(bytes as nat, 0) == double_spacing(bytes as nat, k as nat),
        decreases 64 - k,
    {
        proof {
            assert(double_spacing(bytes as nat, k as nat) == double_spacing(bytes as nat, (k + 1) as nat));
            assert(two_pow((k + 1) as nat) == 2 * two_pow(k as nat));
        }
        u = u * 2;
        k = k + 1;
    }
    assert(double_spacing(bytes as nat, k as nat) == two_pow(k as nat));
    let q: u128 = b / u;
    let r: u128 = b % u;
    let up = r * 2 > u || (r * 2 == u && q % 2 == 1);
    let t0: u128 = if up { q + 1 } else { q };
    proof {
        assert(q * u <= b && t0 <= q + 1) by (nonlinear_arith)
            requires
                u >= 1,
                q == b / u,
                t0 <= q + 1,
        ;
        assert(t0 * u <= b + u) by (nonlinear_arith)
            requires
                q * u <= b,
                t0 <= q + 1,
                u >= 1,
        ;
    }
    let v: u128 = t0 * u;
    assert(v == as_double(bytes));
    let bt: u128 = v * 10;
    let q2: u128 = bt / 0x4000_0000;
    let rem: u128 = bt % 0x4000_0000;
    let t: u128 = if rem > 0x2000_0000 || (rem == 0x2000_0000 && q2 % 2 == 1) { q2 + 1 } else { q2 };
    assert(t == gb_tenths(bytes));
    let whole: u64 = (t / 10) as u64;
    let tenth: u64 = (t % 10) as u64;
    let mut out: Vec<char> = Vec::new();
    push_decimal(&mut out, whole);
    out.push('.');
    push_decimal(&mut out, tenth);
    push_str(&mut out, " GB");
    assert(out@ =~= gb_spec(bytes));
    string_of(&out)
}

/// The hub dialog's zones for its phase: the URL field and LOAD while nothing is loaded,
/// else the variants and the skip toggle; the footer always.
pub fn hub_zones(url_phase: bool, variants: usize) -> (z: Vec<Zone>)
    ensures
        z@ == seq![
            Zone { id: ZoneId(HUB_URL), layout: Layout::Row, items: if url_phase { 1 } else { 0 }, text: true, preferred: 0 },
            Zone { id: ZoneId(HUB_LOAD), layout: Layout::Row, items: if url_phase { 1 } else { 0 }, text: false, preferred: 0 },
            Zone { id: ZoneId(HUB_VARIANTS), layout: Layout::List, items: variants, text: false, preferred: 0 },
            Zone { id: ZoneId(HUB_SKIP), layout: Layout::Row, items: if variants > 0 { 1 } else { 0 }, text: false, preferred: 0 },
            Zone { id: ZoneId(HUB_FOOTER), layout: Layout::Row, items: 2, text: false, preferred: 0 },
        ],
{
    let u: usize = if url_phase { 1 } else { 0 };
    let mut z: Vec<Zone> = Vec::new();
    z.push(Zone::row(ZoneId(HUB_URL), u).text());
    z.push(Zone::row(ZoneId(HUB_LOAD), u));
    z.push(Zone::list(ZoneId(HUB_VARIANTS), variants));
    z.push(Zone::row(ZoneId(HUB_SKIP), if variants > 0 { 1 } else { 0 }));
    z.push(Zone::row(ZoneId(HUB_FOOTER), hub_footer().len()));
    z
}

pub const HUB_SEARCHING: &'static str = "SEARCHING 4KHDHUB…";
pub const HUB_NOT_FOUND: &'static str = "NOT FOUND ON 4KHDHUB. PASTE THE TITLE'S PAGE URL:";
pub const HUB_SEARCH_FAILED: &'static str = "SEARCH FAILED. PASTE THE TITLE'S PAGE URL:";
pub const HUB_READ_FAILED: &'static str = "COULD NOT READ THE PAGE. PASTE ANOTHER URL:";

/// `NO FILES FOR SEASON 2 ON THAT PAGE. PASTE ANOTHER URL:`.
pub fn hub_empty(media: MediaType, season: u32) -> (r: String)
    ensures
        r@ == "NO FILES FOR "@ + match media {
            MediaType::Tv => "SEASON "@ + decimal(season as nat),
            MediaType::Movie => "THIS TITLE"@,
        } + " ON THAT PAGE. PASTE ANOTHER URL:"@,
{
    let mut out: Vec<char> = Vec::new();
    push_str(&mut out, "NO FILES FOR ");
    match media {
        MediaType::Tv => {
            push_str(&mut out, "SEASON ");
            push_decimal(&mut out, season as u64);
        },
        MediaType::Movie => push_str(&mut out, "THIS TITLE"),
    }
    push_str(&mut out, " ON THAT PAGE. PASTE ANOTHER URL:");
    string_of(&out)
}

/// A variant row as the 4KHDHub dialog shows it.
#[derive(Debug, PartialEq, Eq)]
pub struct HubRow {
    pub label: String,
    /// The file name, for movies.
    pub name: String,
    /// `3 UPLOADED` (TV) or `UPLOADED` (movie), empty when nothing is.
    pub badge: String,
    /// `8 OF 10` for TV, empty for movies.
    pub count: String,
    /// True when the variant has every wanted episode (the count reads muted).
    pub complete: bool,
    /// Size of the wanted files.
    pub size: String,
}


/// One file of a 4KHDHub variant.
#[derive(Debug, PartialEq, Eq)]
pub struct HubFile {
    /// The episode the file holds; `None` for a movie or an unnumbered file.
    pub episode: Option<u32>,
    pub name: String,
    pub size_bytes: u64,
    pub link: String,
}

/// One quality variant on a 4KHDHub page.
#[derive(Debug, PartialEq, Eq)]
pub struct Variant {
    /// `S02 SDR 2160p WEB-DL H265`.
    pub label: String,
    /// The season the variant covers; `None` for a movie.
    pub season: Option<u32>,
    /// Its dynamic range.
    pub tag: Tag,
    pub files: Vec<HubFile>,
}

/// The 4KHDHub dialog once a page is loaded.
#[derive(Debug, PartialEq, Eq)]
pub struct HubPicker {
    pub media: MediaType,
    pub season: u32,
    /// Episodes asked for; empty for movies.
    pub wanted: Vec<u32>,
    pub page: String,
    /// The variants for the season (all of them for a movie), best first.
    pub variants: Vec<Variant>,
    pub chosen: Option<usize>,
    /// SKIP EPISODES ALREADY UPLOADED AT THIS QUALITY.
    pub skip_uploaded: bool,
}

/// The chosen variant, if the choice is one of the variants.
pub open spec fn chosen_variant(p: HubPicker) -> Option<Variant> {
    match p.chosen {
        Some(i) => if i < p.variants@.len() { Some(p.variants@[i as int]) } else { None },
        None => None,
    }
}

/// A movie wants every file; a show the files of the wanted episodes.
pub open spec fn wants(media: MediaType, wanted: Seq<u32>, f: HubFile) -> bool {
    match media {
        MediaType::Movie => true,
        MediaType::Tv => f.episode matches Some(e) && wanted.contains(e),
    }
}

/// The files of `files` the dialog wants, in order.
pub open spec fn wanted_files_spec(media: MediaType, wanted: Seq<u32>, files: Seq<HubFile>) -> Seq<HubFile> {
    files.filter(|f: HubFile| wants(media, wanted, f))
}

/// How many of `flags` are set.
pub open spec fn count_set(flags: Seq<bool>) -> nat
    decreases flags.len(),
{
    if flags.len() == 0 {
        0
    } else {
        count_set(flags.drop_last()) + if flags.last() { 1nat } else { 0nat }
    }
}

/// The bytes of `files`.
pub open spec fn total_size(files: Seq<HubFile>) -> int
    decreases files.len(),
{
    if files.len() == 0 { 0 } else { total_size(files.drop_last()) + files.last().size_bytes }
}

/// `3 UPLOADED` (TV), `UPLOADED` (movie), empty when none is.
pub open spec fn uploaded_badge(media: MediaType, n: nat) -> Seq<char> {
    if n == 0 {
        Seq::empty()
    } else {
        match media {
            MediaType::Movie => "UPLOADED"@,
            MediaType::Tv => decimal(n) + " UPLOADED"@,
        }
    }
}

/// `3 ALREADY UPLOADED AT THIS QUALITY` (TV), without the number for a movie, empty when
/// none is.
pub open spec fn uploaded_status(media: MediaType, n: nat) -> Seq<char> {
    if n == 0 {
        Seq::empty()
    } else {
        match media {
            MediaType::Movie => "ALREADY UPLOADED AT THIS QUALITY"@,
            MediaType::Tv => decimal(n) + " ALREADY UPLOADED AT THIS QUALITY"@,
        }
    }
}

/// The wanted files that would be queued: all of them, or with the skip on, those not
/// uploaded yet (`have` says which are, file by file).
pub open spec fn queued_spec(files: Seq<HubFile>, have: Seq<bool>, skip: bool) -> Seq<HubFile>
    decreases files.len(),
{
    if files.len() == 0 {
        Seq::empty()
    } else {
        let rest = queued_spec(files.drop_last(), have.drop_last(), skip);
        if skip && have.last() { rest } else { rest.push(files.last()) }
    }
}

/// Whether `e` is in `v`.
fn has_episode(v: &Vec<u32>, e: u32) -> (r: bool)
    ensures
        r == v@.contains(e),
{
    let mut i: usize = 0;
    while i < v.len()
        invariant
            i <= v@.len(),
            forall|k: int| 0 <= k < i ==> v@[k] != e,
        decreases v@.len() - i,
    {
        if v[i] == e {
            assert(v@[i as int] == e);
            return true;
        }
        i = i + 1;
    }
    false
}

/// A copy of a list of episode numbers.
fn copy_episodes(v: &Vec<u32>) -> (r: Vec<u32>)
    ensures
        r@ == v@,
{
    let mut out: Vec<u32> = Vec::new();
    let mut i: usize = 0;
    while i < v.len()
        invariant
            i <= v@.len(),
            out@ == v@.take(i as int),
        decreases v@.len() - i,
    {
        out.push(v[i]);
        i = i + 1;
    }
    assert(v@.take(v@.len() as int) =~= v@);
    out
}

/// How many of `flags` are set, in code.
fn count_flags(flags: &Vec<bool>) -> (n: usize)
    ensures
        n == count_set(flags@),
{
    let mut n: usize = 0;
    let mut i: usize = 0;
    while i < flags.len()
        invariant
            i <= flags@.len(),
            n == count_set(flags@.take(i as int)),
            n <= i,
        decreases flags@.len() - i,
    {
        proof {
            assert(flags@.take(i + 1).drop_last() =~= flags@.take(i as int));
        }
        if flags[i] {
            n = n + 1;
        }
        i = i + 1;
    }
    assert(flags@.take(flags@.len() as int) =~= flags@);
    n
}

impl HubPicker {
    /// The dialog for a loaded page: the variants of the target's season (every variant for
    /// a movie), in their order; the episodes wanted are the target's; nothing is chosen
    /// yet and uploaded files are skipped.
    pub fn new(t: &Target, page: String, all: Vec<Variant>) -> (p: HubPicker)
        ensures
            p.media == t.media,
            p.season == t.season,
            p.wanted@ == (match t.media {
                MediaType::Tv => if t.selected@.len() == 0 { t.episodes@ } else { t.selected@ },
                MediaType::Movie => Seq::<u32>::empty(),
            }),
            p.page == page,
            p.variants@ == all@.filter(|v: Variant| t.media == MediaType::Movie || v.season == Some(t.season)),
            p.chosen is None,
            p.skip_uploaded,
    {
        let wanted = match t.media {
            MediaType::Tv => t.wanted(),
            MediaType::Movie => Vec::new(),
        };
        let ghost keep = |v: Variant| t.media == MediaType::Movie || v.season == Some(t.season);
        let ghost every = all@;
        let mut rest = all;
        let n = rest.len();
        let mut variants: Vec<Variant> = Vec::new();
        let mut i: usize = 0;
        while rest.len() > 0
            invariant
                keep == (|v: Variant| t.media == MediaType::Movie || v.season == Some(t.season)),
                every.len() == n,
                i + rest@.len() == n,
                rest@ == every.subrange(i as int, n as int),
                variants@ == every.take(i as int).filter(keep),
            decreases rest@.len(),
        {
            let v = rest.remove(0);
            proof {
                reveal(Seq::filter);
                assert(v == every[i as int]);
                assert(every.take(i + 1).drop_last() =~= every.take(i as int));
                assert(every.take(i + 1).last() == v);
            }
            let season_matches = match v.season {
                Some(s) => s == t.season,
                None => false,
            };
            if t.media == MediaType::Movie || season_matches {
                variants.push(v);
            }
            i = i + 1;
            proof {
                assert(rest@ =~= every.subrange(i as int, n as int));
            }
        }
        assert(every.take(n as int) =~= every);
        HubPicker { media: t.media, season: t.season, wanted, page, variants, chosen: None, skip_uploaded: true }
    }

    /// Chooses the variant shown first (the page's default for the wanted episodes).
    pub fn preselect(&mut self, chosen: Option<usize>)
        ensures
            *final(self) == (HubPicker { chosen, ..*old(self) }),
    {
        self.chosen = chosen;
    }

    /// The variant's files for the wanted episodes (every file for a movie), in order.
    pub fn wanted_files<'a>(&self, v: &'a Variant) -> (r: Vec<&'a HubFile>)
        ensures
            r@.map_values(|f: &HubFile| *f) == wanted_files_spec(self.media, self.wanted@, v.files@),
    {
        let ghost keep = |f: HubFile| wants(self.media, self.wanted@, f);
        let mut out: Vec<&'a HubFile> = Vec::new();
        let mut i: usize = 0;
        while i < v.files.len()
            invariant
                keep == (|f: HubFile| wants(self.media, self.wanted@, f)),
                i <= v.files@.len(),
                out@.map_values(|f: &HubFile| *f) == v.files@.take(i as int).filter(keep),
            decreases v.files@.len() - i,
        {
            proof {
                reveal(Seq::filter);
                assert(v.files@.take(i + 1).drop_last() =~= v.files@.take(i as int));
                assert(v.files@.take(i + 1).last() == v.files@[i as int]);
            }
            let f = &v.files[i];
            let wanted = match self.media {
                MediaType::Movie => true,
                MediaType::Tv => match f.episode {
                    Some(e) => has_episode(&self.wanted, e),
                    None => false,
                },
            };
            let ghost before = out@;
            if wanted {
                out.push(f);
                proof {
                    assert(out@.map_values(|f: &HubFile| *f) =~= before.map_values(|f: &HubFile| *f).push(*f));
                }
            }
            i = i + 1;
        }
        assert(v.files@.take(v.files@.len() as int) =~= v.files@);
        out
    }

    /// The chosen variant, if any.
    pub fn current(&self) -> (r: Option<&Variant>)
        ensures
            match chosen_variant(*self) {
                Some(v) => r is Some && *r.unwrap() == v,
                None => r is None,
            },
    {
        match self.chosen {
            Some(i) => if i < self.variants.len() { Some(&self.variants[i]) } else { None },
            None => None,
        }
    }

    /// A variant's row: its label, the file name for a movie, how many wanted files are
    /// uploaded already (`have` says which, wanted file by wanted file), the `N OF M` count
    /// and whether it is complete for a show, and the size of the wanted files.
    pub fn row(&self, v: &Variant, have: &Vec<bool>) -> (r: HubRow)
        requires
            have@.len() == wanted_files_spec(self.media, self.wanted@, v.files@).len(),
            total_size(wanted_files_spec(self.media, self.wanted@, v.files@)) <= u64::MAX,
        ensures
            shows_row(r, *self, *v, have@),
            r.label@ == v.label@,
            r.name@ == (match self.media {
                MediaType::Movie => if v.files@.len() > 0 { v.files@[0].name@ } else { Seq::empty() },
                MediaType::Tv => Seq::empty(),
            }),
            r.badge@ == uploaded_badge(self.media, count_set(have@)),
            ({
                let n = wanted_files_spec(self.media, self.wanted@, v.files@).len();
                match self.media {
                    MediaType::Movie => r.count@.len() == 0 && r.complete,
                    MediaType::Tv => r.count@ == decimal(n) + " OF "@ + decimal(self.wanted@.len()) && r.complete == (n == self.wanted@.len()),
                }
            }),
            r.size@ == gb_spec(total_size(wanted_files_spec(self.media, self.wanted@, v.files@)) as u64),
    {
        let files = self.wanted_files(v);
        let ghost fs = wanted_files_spec(self.media, self.wanted@, v.files@);
        let have_n = count_flags(have);
        let mut size: u64 = 0;
        let mut i: usize = 0;
        while i < files.len()
            invariant
                files@.map_values(|f: &HubFile| *f) == fs,
                total_size(fs) <= u64::MAX,
                i <= files@.len(),
                size == total_size(fs.take(i as int)),
            decreases files@.len() - i,
        {
            proof {
                assert(fs.take(i + 1).drop_last() =~= fs.take(i as int));
                assert(fs.take(i + 1).last() == fs[i as int]);
                lemma_total_size_prefix(fs, i + 1);
            }
            size = size + files[i].size_bytes;
            i = i + 1;
        }
        assert(fs.take(fs.len() as int) =~= fs);
        let mut badge: Vec<char> = Vec::new();
        if have_n > 0 {
            match self.media {
                MediaType::Movie => push_str(&mut badge, "UPLOADED"),
                MediaType::Tv => {
                    push_decimal(&mut badge, have_n as u64);
                    push_str(&mut badge, " UPLOADED");
                },
            }
        }
        let mut count: Vec<char> = Vec::new();
        let complete = match self.media {
            MediaType::Movie => true,
            MediaType::Tv => {
                push_decimal(&mut count, files.len() as u64);
                push_str(&mut count, " OF ");
                push_decimal(&mut count, self.wanted.len() as u64);
                files.len() == self.wanted.len()
            },
        };
        let name = match self.media {
            MediaType::Movie => if v.files.len() > 0 { v.files[0].name.clone() } else { String::new() },
            MediaType::Tv => String::new(),
        };
        HubRow {
            label: v.label.clone(),
            name,
            badge: string_of(&badge),
            count: string_of(&count),
            complete,
            size: gb(size),
        }
    }

    /// The files QUEUE N would queue: the chosen variant's wanted files, less the uploaded
    /// ones while the skip is on (`have` says which are, wanted file by wanted file).
    pub fn queued(&self, have: &Vec<bool>) -> (r: Vec<&HubFile>)
        requires
            chosen_variant(*self) matches Some(v) ==> have@.len() == wanted_files_spec(self.media, self.wanted@, v.files@).len(),
        ensures
            r@.map_values(|f: &HubFile| *f) == match chosen_variant(*self) {
                Some(v) => queued_spec(wanted_files_spec(self.media, self.wanted@, v.files@), have@, self.skip_uploaded),
                None => Seq::empty(),
            },
    {
        let v = match self.current() {
            Some(v) => v,
            None => {
                return Vec::new();
            },
        };
        let files = self.wanted_files(v);
        let ghost fs = wanted_files_spec(self.media, self.wanted@, v.files@);
        let mut out: Vec<&HubFile> = Vec::new();
        let mut i: usize = 0;
        while i < files.len()
            invariant
                files@.map_values(|f: &HubFile| *f) == fs,
                have@.len() == fs.len(),
                i <= files@.len(),
                out@.map_values(|f: &HubFile| *f) == queued_spec(fs.take(i as int), have@.take(i as int), self.skip_uploaded),
            decreases files@.len() - i,
        {
            proof {
                assert(fs.take(i + 1).drop_last() =~= fs.take(i as int));
                assert(have@.take(i + 1).drop_last() =~= have@.take(i as int));
                assert(fs.take(i + 1).last() == fs[i as int]);
            }
            let ghost before = out@;
            if !(self.skip_uploaded && have[i]) {
                out.push(files[i]);
                proof {
                    assert(out@.map_values(|f: &HubFile| *f) =~= before.map_values(|f: &HubFile| *f).push(*files@[i as int]));
                }
            }
            i = i + 1;
        }
        assert(fs.take(fs.len() as int) =~= fs);
        assert(have@.take(have@.len() as int) =~= have@);
        out
    }

    /// `3 ALREADY UPLOADED AT THIS QUALITY` for the chosen variant, empty when nothing is
    /// uploaded or nothing is chosen.
    pub fn status(&self, have: &Vec<bool>) -> (r: String)
        ensures
            r@ == match chosen_variant(*self) {
                Some(_) => uploaded_status(self.media, count_set(have@)),
                None => Seq::empty(),
            },
    {
        if self.current().is_none() {
            return String::new();
        }
        let n = count_flags(have);
        let mut out: Vec<char> = Vec::new();
        if n > 0 {
            match self.media {
                MediaType::Movie => push_str(&mut out, "ALREADY UPLOADED AT THIS QUALITY"),
                MediaType::Tv => {
                    push_decimal(&mut out, n as u64);
                    push_str(&mut out, " ALREADY UPLOADED AT THIS QUALITY");
                },
            }
        }
        string_of(&out)
    }

    /// Hub jobs for the queued files, tagged with the chosen variant's range.
    pub fn jobs(&self, t: &Target, have: &Vec<bool>) -> (r: Vec<Job>)
        requires
            chosen_variant(*self) matches Some(v) ==> have@.len() == wanted_files_spec(self.media, self.wanted@, v.files@).len(),
        ensures
            match chosen_variant(*self) {
                None => r@.len() == 0,
                Some(v) => {
                    let q = queued_spec(wanted_files_spec(self.media, self.wanted@, v.files@), have@, self.skip_uploaded);
                    &&& r@.len() == q.len()
                    &&& forall|i: int| 0 <= i < r@.len() ==> {
                        let j = #[trigger] r@[i];
                        &&& j.key == t.key_spec(match q[i].episode { Some(e) => e, None => 0 })
                        &&& j.title == t.title
                        &&& j.source matches JobSource::Hub { url, name } && url@ == q[i].link@ && name@ == q[i].name@
                        &&& j.tag == Some(v.tag)
                    }
                },
            },
    {
        let v = match self.current() {
            Some(v) => v,
            None => {
                return Vec::new();
            },
        };
        let files = self.queued(have);
        let ghost q = files@.map_values(|f: &HubFile| *f);
        let mut out: Vec<Job> = Vec::new();
        let mut i: usize = 0;
        while i < files.len()
            invariant
                q == files@.map_values(|f: &HubFile| *f),
                i <= files@.len(),
                out@.len() == i,
                forall|k: int| 0 <= k < i ==> {
                    let j = #[trigger] out@[k];
                    &&& j.key == t.key_spec(match q[k].episode { Some(e) => e, None => 0 })
                    &&& j.title == t.title
                    &&& j.source matches JobSource::Hub { url, name } && url@ == q[k].link@ && name@ == q[k].name@
                    &&& j.tag == Some(v.tag)
                },
            decreases files@.len() - i,
        {
            let f = files[i];
            let e: u32 = match f.episode {
                Some(e) => e,
                None => 0,
            };
            out.push(Job {
                key: t.key(e),
                title: t.title.clone(),
                source: JobSource::Hub { url: f.link.clone(), name: f.name.clone() },
                tag: Some(v.tag),
            });
            i = i + 1;
        }
        out
    }
}

proof fn lemma_total_size_prefix(files: Seq<HubFile>, k: int)
    requires
        0 <= k <= files.len(),
    ensures
        total_size(files.take(k)) <= total_size(files),
    decreases files.len() - k,
{
    if k < files.len() {
        lemma_total_size_prefix(files, k + 1);
        assert(files.take(k + 1).drop_last() =~= files.take(k));
    } else {
        assert(files.take(k) =~= files);
    }
}

// ---------------------------------------------------------------------------------------
// Local files

/// A picked file as the picker hands it over: its path, its file name, the episode and the
/// dynamic range its name reads as (`None` when the name holds no episode).
#[derive(Debug, PartialEq, Eq)]
pub struct PickedFile {
    pub path: String,
    pub name: String,
    pub episode: Option<u32>,
    pub tag: Tag,
}

/// One picked file with its episode (as typed) and dynamic range tag.
#[derive(Debug, PartialEq, Eq)]
pub struct FileRow {
    pub path: String,
    pub name: String,
    pub episode: String,
    pub tag: Tag,
}

/// The local files dialog.
#[derive(Debug, PartialEq, Eq)]
pub struct LocalFiles {
    pub media: MediaType,
    pub start: u32,
    pub rows: Vec<FileRow>,
}

/// A row as plain values: path, name, episode text and tag.
pub open spec fn row_view(r: FileRow) -> (Seq<char>, Seq<char>, Seq<char>, Tag) {
    (r.path@, r.name@, r.episode@, r.tag)
}

/// The rows as plain values.
pub open spec fn rows_view(rows: Seq<FileRow>) -> Seq<(Seq<char>, Seq<char>, Seq<char>, Tag)> {
    rows.map_values(|r: FileRow| row_view(r))
}

/// The highest episode number typed in the rows, if any.
pub open spec fn max_typed(rows: Seq<(Seq<char>, Seq<char>, Seq<char>, Tag)>) -> Option<u32>
    decreases rows.len(),
{
    if rows.len() == 0 {
        None
    } else {
        let rest = max_typed(rows.drop_last());
        match parse_episode_spec(rows.last().2) {
            None => rest,
            Some(e) => match rest {
                Some(m) => if m >= e { Some(m) } else { Some(e) },
                None => Some(e),
            },
        }
    }
}

/// The episode a file without one in its name gets first: one past the highest typed, else
/// the start episode.
pub open spec fn first_free(rows: Seq<(Seq<char>, Seq<char>, Seq<char>, Tag)>, start: u32) -> int {
    match max_typed(rows) {
        Some(m) => m + 1,
        None => if start > 0 { start as int } else { 1 },
    }
}

/// Whether a row with this path is listed.
pub open spec fn listed(rows: Seq<(Seq<char>, Seq<char>, Seq<char>, Tag)>, path: Seq<char>) -> bool {
    exists|i: int| 0 <= i < rows.len() && (#[trigger] rows[i]).0 == path
}

/// The rows after adding `files` in their order, and the next free episode: a file already
/// listed, or one past the row limit, is skipped; an added file takes the episode its name
/// reads as, else the next free one, and the next free one follows it.
pub open spec fn appended(rows: Seq<(Seq<char>, Seq<char>, Seq<char>, Tag)>, files: Seq<PickedFile>, next: int) -> (Seq<(Seq<char>, Seq<char>, Seq<char>, Tag)>, int)
    decreases files.len(),
{
    if files.len() == 0 {
        (rows, next)
    } else {
        let (before, n) = appended(rows, files.drop_last(), next);
        let f = files.last();
        if before.len() >= MAX_ROWS || listed(before, f.path@) {
            (before, n)
        } else {
            let e = match f.episode {
                Some(e) => e as int,
                None => n,
            };
            (before.push((f.path@, f.name@, decimal(e as nat), f.tag)), e + 1)
        }
    }
}

/// Whether every episode `appended` hands out, and the one after it, is a `u32`.
pub open spec fn append_fits(rows: Seq<(Seq<char>, Seq<char>, Seq<char>, Tag)>, files: Seq<PickedFile>, next: int) -> bool
    decreases files.len(),
{
    if files.len() == 0 {
        next <= u32::MAX
    } else {
        let (before, n) = appended(rows, files.drop_last(), next);
        let f = files.last();
        &&& append_fits(rows, files.drop_last(), next)
        &&& (before.len() >= MAX_ROWS || listed(before, f.path@) || match f.episode {
            Some(e) => e < u32::MAX,
            None => n < u32::MAX,
        })
    }
}

/// The job of each row with its tag; TV rows need an episode number.
pub open spec fn file_jobs_spec(rows: Seq<FileRow>, t: Target) -> Seq<(EpisodeKey, Seq<char>, Tag)>
    decreases rows.len(),
{
    if rows.len() == 0 {
        Seq::empty()
    } else {
        let rest = file_jobs_spec(rows.drop_last(), t);
        let r = rows.last();
        match t.media {
            MediaType::Movie => rest.push((t.key_spec(0), r.path@, r.tag)),
            MediaType::Tv => match parse_episode_spec(r.episode@) {
                Some(e) => rest.push((t.key_spec(e), r.path@, r.tag)),
                None => rest,
            },
        }
    }
}

/// The zones of `n` file rows: per row the episode field (TV), the tag and REMOVE.
pub open spec fn file_row_zones(n: nat, media: MediaType) -> Seq<Zone>
    decreases n,
{
    if n == 0 {
        Seq::empty()
    } else {
        let i = (n - 1) as usize;
        let cells = seq![
            Zone { id: ZoneId(cell_zone_spec(FILES_ROWS, i, COL_MAIN) as i32), layout: Layout::Row, items: 1, text: false, preferred: 0 },
            Zone { id: ZoneId(cell_zone_spec(FILES_ROWS, i, COL_REMOVE) as i32), layout: Layout::Row, items: 1, text: false, preferred: 0 },
        ];
        file_row_zones((n - 1) as nat, media) + (if media == MediaType::Tv {
            seq![Zone { id: ZoneId(cell_zone_spec(FILES_ROWS, i, COL_EPISODE) as i32), layout: Layout::Row, items: 1, text: true, preferred: 0 }] + cells
        } else {
            cells
        })
    }
}

/// Whether a row lists `path` (paths compare as text).
fn is_listed(rows: &Vec<FileRow>, path: &str) -> (r: bool)
    ensures
        r == listed(rows_view(rows@), path@),
{
    let mut i: usize = 0;
    while i < rows.len()
        invariant
            i <= rows@.len(),
            forall|k: int| 0 <= k < i ==> rows@[k].path@ != path@,
        decreases rows@.len() - i,
    {
        if crate::text::same_text(rows[i].path.as_str(), path) {
            assert(rows_view(rows@)[i as int].0 == path@);
            return true;
        }
        i = i + 1;
    }
    assert forall|k: int| 0 <= k < rows_view(rows@).len() implies (#[trigger] rows_view(rows@)[k]).0 != path@ by {
        assert(rows_view(rows@)[k].0 == rows@[k].path@);
    }
    false
}

impl LocalFiles {
    /// No file yet; episodes without a number in the name start at `start`.
    pub fn new(media: MediaType, start: u32) -> (f: LocalFiles)
        ensures
            f.media == media,
            f.start == start,
            f.rows@.len() == 0,
    {
        LocalFiles { media, start, rows: Vec::new() }
    }

    /// Adds picked files, given in natural order of their names, skipping ones already
    /// listed and any past the row limit. Episodes come from the name, else follow on from
    /// the previous file (the first from one past the highest typed, else the start
    /// episode). A movie keeps only the last row.
    pub fn append(&mut self, files: Vec<PickedFile>)
        requires
            max_typed(rows_view(old(self).rows@)) != Some(u32::MAX),
            append_fits(rows_view(old(self).rows@), files@, first_free(rows_view(old(self).rows@), old(self).start)),
        ensures
            final(self).media == old(self).media,
            final(self).start == old(self).start,
            ({
                let all = appended(rows_view(old(self).rows@), files@, first_free(rows_view(old(self).rows@), old(self).start)).0;
                rows_view(final(self).rows@) == if old(self).media == MediaType::Movie && all.len() > 1 {
                    seq![all.last()]
                } else {
                    all
                }
            }),
    {
        let ghost rows0 = rows_view(self.rows@);
        let ghost all_files = files@;
        let mut highest: Option<u32> = None;
        let mut i: usize = 0;
        while i < self.rows.len()
            invariant
                i <= self.rows@.len(),
                rows0 == rows_view(self.rows@),
                highest == max_typed(rows0.take(i as int)),
            decreases self.rows@.len() - i,
        {
            proof {
                assert(rows0.take(i + 1).drop_last() =~= rows0.take(i as int));
                assert(rows0.take(i + 1).last() == row_view(self.rows@[i as int]));
            }
            match parse_episode(self.rows[i].episode.as_str()) {
                Some(e) => {
                    highest = match highest {
                        Some(m) => if m >= e { Some(m) } else { Some(e) },
                        None => Some(e),
                    };
                },
                None => {},
            }
            i = i + 1;
        }
        assert(rows0.take(rows0.len() as int) =~= rows0);
        let mut next: u32 = match highest {
            Some(m) => m + 1,
            None => if self.start > 0 { self.start } else { 1 },
        };
        let ghost next0 = next as int;
        let mut rest = files;
        let n = rest.len();
        let mut k: usize = 0;
        while rest.len() > 0
            invariant
                all_files.len() == n,
                k + rest@.len() == n,
                rest@ == all_files.subrange(k as int, n as int),
                self.media == old(self).media,
                self.start == old(self).start,
                append_fits(rows0, all_files, next0),
                (rows_view(self.rows@), next as int) == appended(rows0, all_files.take(k as int), next0),
            decreases rest@.len(),
        {
            let f = rest.remove(0);
            proof {
                assert(f == all_files[k as int]);
                assert(all_files.take(k + 1).drop_last() =~= all_files.take(k as int));
                assert(all_files.take(k + 1).last() == f);
                lemma_append_fits_prefix(rows0, all_files, next0, k + 1);
            }
            if self.rows.len() < MAX_ROWS && !is_listed(&self.rows, f.path.as_str()) {
                let e: u32 = match f.episode {
                    Some(e) => e,
                    None => next,
                };
                let ghost before = self.rows@;
                self.rows.push(FileRow { path: f.path, name: f.name, episode: crate::text::decimal_string(e as u64), tag: f.tag });
                next = e + 1;
                proof {
                    assert(rows_view(self.rows@) =~= rows_view(before).push(row_view(self.rows@.last())));
                }
            }
            k = k + 1;
            proof {
                assert(rest@ =~= all_files.subrange(k as int, n as int));
            }
        }
        assert(all_files.take(n as int) =~= all_files);
        if self.media == MediaType::Movie && self.rows.len() > 1 {
            let last = self.rows.pop().unwrap();
            self.rows = vec![last];
            proof {
                assert(rows_view(self.rows@) =~= seq![row_view(last)]);
            }
        }
    }

    /// Cycles row `index`'s tag SDR → HDR → DV → SDR; returns the new tag, `None` when
    /// there is no such row.
    pub fn cycle_tag(&mut self, index: usize) -> (r: Option<Tag>)
        ensures
            final(self).media == old(self).media,
            final(self).start == old(self).start,
            index >= old(self).rows@.len() ==> r is None && final(self).rows@ == old(self).rows@,
            index < old(self).rows@.len() ==> {
                let row = old(self).rows@[index as int];
                let tag = match row.tag {
                    Tag::Sdr => Tag::Hdr,
                    Tag::Hdr => Tag::Dv,
                    Tag::Dv => Tag::Sdr,
                };
                &&& r == Some(tag)
                &&& rows_view(final(self).rows@) == rows_view(old(self).rows@).update(index as int, (row.path@, row.name@, row.episode@, tag))
            },
    {
        if index >= self.rows.len() {
            return None;
        }
        let tag = next_tag(self.rows[index].tag);
        let path = self.rows[index].path.clone();
        let name = self.rows[index].name.clone();
        let episode = self.rows[index].episode.clone();
        let ghost before = self.rows@;
        self.rows.set(index, FileRow { path, name, episode, tag });
        proof {
            assert(rows_view(self.rows@) =~= rows_view(before).update(index as int, (before[index as int].path@, before[index as int].name@, before[index as int].episode@, tag)));
        }
        Some(tag)
    }

    /// Removes row `index`; false when there is no such row.
    pub fn remove(&mut self, index: usize) -> (r: bool)
        ensures
            r == (index < old(self).rows@.len()),
            r ==> final(self).rows@ == old(self).rows@.remove(index as int),
            final(self).media == old(self).media,
            final(self).start == old(self).start,
            !r ==> final(self).rows@ == old(self).rows@,
    {
        if index >= self.rows.len() {
            return false;
        }
        self.rows.remove(index);
        true
    }

    /// Row `index` now reads `text` in its episode field.
    pub fn set_episode(&mut self, index: usize, text: &str)
        ensures
            final(self).media == old(self).media,
            final(self).start == old(self).start,
            index < old(self).rows@.len() ==> rows_view(final(self).rows@) == rows_view(old(self).rows@).update(index as int,
                (old(self).rows@[index as int].path@, old(self).rows@[index as int].name@, text@, old(self).rows@[index as int].tag)),
            index >= old(self).rows@.len() ==> final(self).rows@ == old(self).rows@,
    {
        if index < self.rows.len() {
            let path = self.rows[index].path.clone();
            let name = self.rows[index].name.clone();
            let tag = self.rows[index].tag;
            let ghost before = self.rows@;
            self.rows.set(index, FileRow { path, name, episode: crate::text::owned(text), tag });
            proof {
                assert(rows_view(self.rows@) =~= rows_view(before).update(index as int, (before[index as int].path@, before[index as int].name@, text@, tag)));
            }
        }
    }

    /// File jobs with their tag; TV rows need an episode number.
    pub fn jobs(&self, t: &Target) -> (r: Vec<Job>)
        ensures
            r@.len() == file_jobs_spec(self.rows@, *t).len(),
            forall|i: int| 0 <= i < r@.len() ==> {
                let j = #[trigger] r@[i];
                let spec = file_jobs_spec(self.rows@, *t)[i];
                &&& j.key == spec.0
                &&& j.source matches JobSource::File(p) && p@ == spec.1
                &&& j.tag == Some(spec.2)
                &&& j.title == t.title
            },
    {
        let mut out: Vec<Job> = Vec::new();
        let mut i: usize = 0;
        while i < self.rows.len()
            invariant
                i <= self.rows@.len(),
                out@.len() == file_jobs_spec(self.rows@.take(i as int), *t).len(),
                forall|k: int| 0 <= k < out@.len() ==> {
                    let j = #[trigger] out@[k];
                    let spec = file_jobs_spec(self.rows@.take(i as int), *t)[k];
                    &&& j.key == spec.0
                    &&& j.source matches JobSource::File(p) && p@ == spec.1
                    &&& j.tag == Some(spec.2)
                    &&& j.title == t.title
                },
            decreases self.rows@.len() - i,
        {
            assert(self.rows@.take(i + 1).drop_last() =~= self.rows@.take(i as int));
            assert(self.rows@.take(i + 1).last() == self.rows@[i as int]);
            let row = &self.rows[i];
            match t.media {
                MediaType::Movie => {
                    out.push(Job { key: t.key(0), title: t.title.clone(), source: JobSource::File(row.path.clone()), tag: Some(row.tag) });
                },
                MediaType::Tv => {
                    match parse_episode(row.episode.as_str()) {
                        Some(e) => {
                            out.push(Job { key: t.key(e), title: t.title.clone(), source: JobSource::File(row.path.clone()), tag: Some(row.tag) });
                        },
                        None => {},
                    }
                },
            }
            i = i + 1;
        }
        assert(self.rows@.take(self.rows@.len() as int) =~= self.rows@);
        out
    }

    /// Per row the episode field (TV), the tag and REMOVE, then the footer (CHOOSE FILES,
    /// CANCEL, QUEUE N).
    pub fn zones(&self) -> (z: Vec<Zone>)
        ensures
            z@ == file_row_zones(self.rows@.len(), self.media).push(
                Zone { id: ZoneId(FILES_FOOTER), layout: Layout::Row, items: 3, text: false, preferred: 0 },
            ),
    {
        let mut z: Vec<Zone> = Vec::new();
        let mut i: usize = 0;
        while i < self.rows.len()
            invariant
                i <= self.rows@.len(),
                z@ == file_row_zones(i as nat, self.media),
            decreases self.rows@.len() - i,
        {
            if self.media == MediaType::Tv {
                z.push(Zone::row(cell_zone(FILES_ROWS, i, COL_EPISODE), 1).text());
            }
            z.push(Zone::row(cell_zone(FILES_ROWS, i, COL_MAIN), 1));
            z.push(Zone::row(cell_zone(FILES_ROWS, i, COL_REMOVE), 1));
            i = i + 1;
            assert(z@ =~= file_row_zones(i as nat, self.media));
        }
        let f = files_footer();
        assert(f@.len() == 3);
        z.push(Zone::row(ZoneId(FILES_FOOTER), f.len()));
        z
    }
}

proof fn lemma_append_fits_prefix(rows: Seq<(Seq<char>, Seq<char>, Seq<char>, Tag)>, files: Seq<PickedFile>, next: int, k: int)
    requires
        append_fits(rows, files, next),
        0 <= k <= files.len(),
    ensures
        append_fits(rows, files.take(k), next),
    decreases files.len() - k,
{
    if k < files.len() {
        lemma_append_fits_prefix(rows, files, next, k + 1);
        assert(files.take(k + 1).drop_last() =~= files.take(k));
    } else {
        assert(files.take(k) =~= files);
    }
}

/// Picking files that are all listed already changes nothing: the rows stay as they are.
pub proof fn law_listed_files_are_ignored(rows: Seq<(Seq<char>, Seq<char>, Seq<char>, Tag)>, files: Seq<PickedFile>, next: int)
    requires
        forall|i: int| 0 <= i < files.len() ==> listed(rows, (#[trigger] files[i]).path@),
    ensures
        appended(rows, files, next).0 == rows,
    decreases files.len(),
{
    if files.len() > 0 {
        assert forall|i: int| 0 <= i < files.drop_last().len() implies listed(rows, (#[trigger] files.drop_last()[i]).path@) by {
            assert(files.drop_last()[i] == files[i]);
        }
        law_listed_files_are_ignored(rows, files.drop_last(), next);
        assert(listed(rows, files[files.len() - 1].path@));
    }
}

/// No two rows share a path.
pub open spec fn distinct_paths(rows: Seq<(Seq<char>, Seq<char>, Seq<char>, Tag)>) -> bool {
    forall|i: int, j: int| 0 <= i < j < rows.len() ==> (#[trigger] rows[i]).0 != (#[trigger] rows[j]).0
}

/// Adding picked files keeps what the dialog promises: the rows listed before stay first and
/// unchanged, no path is listed twice, the rows stay within the limit, every new row comes
/// from a picked file, and every picked file is listed unless the dialog is full.
pub proof fn law_append_keeps_rows_distinct_and_bounded(rows: Seq<(Seq<char>, Seq<char>, Seq<char>, Tag)>, files: Seq<PickedFile>, next: int)
    requires
        distinct_paths(rows),
        rows.len() <= MAX_ROWS,
    ensures
        ({
            let out = appended(rows, files, next).0;
            &&& rows.len() <= out.len() <= MAX_ROWS
            &&& distinct_paths(out)
            &&& out.take(rows.len() as int) == rows
            &&& forall|k: int| #![trigger out[k]] rows.len() <= k < out.len() ==> exists|i: int| 0 <= i < files.len() && (#[trigger] files[i]).path@ == out[k].0
            &&& forall|i: int| 0 <= i < files.len() ==> listed(out, (#[trigger] files[i]).path@) || out.len() >= MAX_ROWS
        }),
    decreases files.len(),
{
    if files.len() == 0 {
        assert(rows.take(rows.len() as int) =~= rows);
    } else {
        let fs = files.drop_last();
        law_append_keeps_rows_distinct_and_bounded(rows, fs, next);
        let (before, n) = appended(rows, fs, next);
        let f = files.last();
        let out = appended(rows, files, next).0;
        assert forall|i: int| 0 <= i < fs.len() implies fs[i] == files[i] by {}
        if before.len() >= MAX_ROWS || listed(before, f.path@) {
            assert(out == before);
            assert forall|k: int| #![trigger out[k]] rows.len() <= k < out.len() implies exists|i: int| 0 <= i < files.len() && (#[trigger] files[i]).path@ == out[k].0 by {
                let i = choose|i: int| 0 <= i < fs.len() && (#[trigger] fs[i]).path@ == before[k].0;
                assert(files[i] == fs[i]);
            }
            assert forall|i: int| 0 <= i < files.len() implies listed(out, (#[trigger] files[i]).path@) || out.len() >= MAX_ROWS by {
                if i < fs.len() {
                    assert(files[i] == fs[i]);
                    assert(listed(before, fs[i].path@) || before.len() >= MAX_ROWS);
                }
            }
        } else {
            let e = match f.episode {
                Some(e) => e as int,
                None => n,
            };
            let row = (f.path@, f.name@, decimal(e as nat), f.tag);
            assert(out == before.push(row));
            assert forall|a: int, b: int| 0 <= a < b < out.len() implies (#[trigger] out[a]).0 != (#[trigger] out[b]).0 by {
                if b == out.len() - 1 {
                    assert(out[a] == before[a]);
                    if before[a].0 == f.path@ {
                        assert(listed(before, f.path@));
                    }
                } else {
                    assert(out[a] == before[a] && out[b] == before[b]);
                }
            }
            assert(out.take(rows.len() as int) =~= before.take(rows.len() as int));
            assert forall|k: int| #![trigger out[k]] rows.len() <= k < out.len() implies exists|i: int| 0 <= i < files.len() && (#[trigger] files[i]).path@ == out[k].0 by {
                if k == out.len() - 1 {
                    assert(files[files.len() - 1].path@ == out[k].0);
                } else {
                    let i = choose|i: int| 0 <= i < fs.len() && (#[trigger] fs[i]).path@ == before[k].0;
                    assert(files[i] == fs[i]);
                    assert(out[k] == before[k]);
                }
            }
            assert forall|i: int| 0 <= i < files.len() implies listed(out, (#[trigger] files[i]).path@) || out.len() >= MAX_ROWS by {
                if i < fs.len() {
                    assert(files[i] == fs[i]);
                    if listed(before, fs[i].path@) {
                        let j = choose|j: int| 0 <= j < before.len() && (#[trigger] before[j]).0 == fs[i].path@;
                        assert(out[j] == before[j]);
                    }
                } else {
                    assert(out[out.len() - 1].0 == f.path@);
                }
            }
        }
    }
}

/// How many distinct picked paths are not listed yet: the rows adding `files` would make.
pub open spec fn fresh_count(rows: Seq<(Seq<char>, Seq<char>, Seq<char>, Tag)>, files: Seq<PickedFile>) -> nat
    decreases files.len(),
{
    if files.len() == 0 {
        0
    } else {
        let fs = files.drop_last();
        let p = files.last().path@;
        fresh_count(rows, fs) + if listed(rows, p) || exists|i: int| 0 <= i < fs.len() && (#[trigger] fs[i]).path@ == p { 0nat } else { 1nat }
    }
}

/// When the distinct new paths fit under the row limit, adding picked files lists every one
/// of them: one row per distinct new path, after the rows listed before.
pub proof fn law_append_lists_every_file_that_fits(rows: Seq<(Seq<char>, Seq<char>, Seq<char>, Tag)>, files: Seq<PickedFile>, next: int)
    requires
        rows.len() + fresh_count(rows, files) <= MAX_ROWS,
    ensures
        ({
            let out = appended(rows, files, next).0;
            &&& out.len() == rows.len() + fresh_count(rows, files)
            &&& out.take(rows.len() as int) == rows
            &&& forall|k: int| #![trigger out[k]] rows.len() <= k < out.len() ==> exists|i: int| 0 <= i < files.len() && (#[trigger] files[i]).path@ == out[k].0
            &&& forall|i: int| 0 <= i < files.len() ==> listed(out, (#[trigger] files[i]).path@)
        }),
    decreases files.len(),
{
    if files.len() == 0 {
        assert(rows.take(rows.len() as int) =~= rows);
    } else {
        let fs = files.drop_last();
        law_append_lists_every_file_that_fits(rows, fs, next);
        let (before, n) = appended(rows, fs, next);
        let f = files.last();
        let out = appended(rows, files, next).0;
        assert forall|i: int| 0 <= i < fs.len() implies fs[i] == files[i] by {}
        let seen = exists|i: int| 0 <= i < fs.len() && (#[trigger] fs[i]).path@ == f.path@;
        if listed(rows, f.path@) {
            let j = choose|j: int| 0 <= j < rows.len() && (#[trigger] rows[j]).0 == f.path@;
            assert(before.take(rows.len() as int)[j] == before[j]);
            assert(listed(before, f.path@));
        } else if seen {
            let i = choose|i: int| 0 <= i < fs.len() && (#[trigger] fs[i]).path@ == f.path@;
            assert(listed(before, fs[i].path@));
        } else {
            assert(!listed(before, f.path@)) by {
                if listed(before, f.path@) {
                    let k = choose|k: int| 0 <= k < before.len() && (#[trigger] before[k]).0 == f.path@;
                    if k < rows.len() {
                        assert(before.take(rows.len() as int)[k] == before[k]);
                        assert(rows[k].0 == f.path@);
                    } else {
                        let i = choose|i: int| 0 <= i < fs.len() && (#[trigger] fs[i]).path@ == before[k].0;
                    }
                }
            }
        }
        if before.len() >= MAX_ROWS || listed(before, f.path@) {
            assert(out == before);
            assert forall|k: int| #![trigger out[k]] rows.len() <= k < out.len() implies exists|i: int| 0 <= i < files.len() && (#[trigger] files[i]).path@ == out[k].0 by {
                let i = choose|i: int| 0 <= i < fs.len() && (#[trigger] fs[i]).path@ == before[k].0;
                assert(files[i] == fs[i]);
            }
            assert forall|i: int| 0 <= i < files.len() implies listed(out, (#[trigger] files[i]).path@) by {
                if i < fs.len() {
                    assert(files[i] == fs[i]);
                }
            }
        } else {
            let e = match f.episode {
                Some(e) => e as int,
                None => n,
            };
            let row = (f.path@, f.name@, decimal(e as nat), f.tag);
            assert(out == before.push(row));
            assert(out.take(rows.len() as int) =~= before.take(rows.len() as int));
            assert forall|k: int| #![trigger out[k]] rows.len() <= k < out.len() implies exists|i: int| 0 <= i < files.len() && (#[trigger] files[i]).path@ == out[k].0 by {
                if k == out.len() - 1 {
                    assert(files[files.len() - 1].path@ == out[k].0);
                } else {
                    let i = choose|i: int| 0 <= i < fs.len() && (#[trigger] fs[i]).path@ == before[k].0;
                    assert(files[i] == fs[i]);
                    assert(out[k] == before[k]);
                }
            }
            assert forall|i: int| 0 <= i < files.len() implies listed(out, (#[trigger] files[i]).path@) by {
                if i < fs.len() {
                    assert(files[i] == fs[i]);
                    let j = choose|j: int| 0 <= j < before.len() && (#[trigger] before[j]).0 == fs[i].path@;
                    assert(out[j] == before[j]);
                } else {
                    assert(out[out.len() - 1].0 == f.path@);
                }
            }
        }
    }
}

/// The row `r` of variant `v` in picker `p`, `have` saying which wanted files are uploaded:
/// the label, the movie's file name, the UPLOADED badge, the `N OF M` count and whether it
/// is complete, and the size of the wanted files.
pub open spec fn shows_row(r: HubRow, p: HubPicker, v: Variant, have: Seq<bool>) -> bool {
    let n = wanted_files_spec(p.media, p.wanted@, v.files@).len();
    &&& r.label@ == v.label@
    &&& r.name@ == (match p.media {
        MediaType::Movie => if v.files@.len() > 0 { v.files@[0].name@ } else { Seq::empty() },
        MediaType::Tv => Seq::empty(),
    })
    &&& r.badge@ == uploaded_badge(p.media, count_set(have))
    &&& match p.media {
        MediaType::Movie => r.count@.len() == 0 && r.complete,
        MediaType::Tv => r.count@ == decimal(n) + " OF "@ + decimal(p.wanted@.len()) && r.complete == (n == p.wanted@.len()),
    }
    &&& r.size@ == gb_spec(total_size(wanted_files_spec(p.media, p.wanted@, v.files@)) as u64)
}

/// Where the 4KHDHub dialog stands.
#[derive(Debug, PartialEq, Eq)]
pub enum HubPhase {
    /// Searching for the title or reading a page: the line shown.
    Busy(String),
    /// Asking for the title's page URL: the prompt shown.
    Url(String),
    Loaded(HubPicker),
}

/// What the 4KHDHub dialog shows.
#[derive(Debug, PartialEq, Eq)]
pub struct HubView {
    /// 0 busy, 1 asking for a URL, 2 a page loaded.
    pub phase: u32,
    pub status: String,
    pub rows: Vec<HubRow>,
    /// The chosen variant's row, -1 when none is chosen.
    pub chosen: i32,
    pub skip_uploaded: bool,
    pub host: String,
    /// `3 ALREADY UPLOADED AT THIS QUALITY` for the chosen variant.
    pub note: String,
    /// `QUEUE N`.
    pub queue_label: String,
    /// Where focus lands unless the caller says otherwise.
    pub focus: Focus,
    pub zones: Vec<Zone>,
}

/// The upload flags of every variant fit the picker: one list per variant, one flag per
/// wanted file, and sizes within what the size line states exactly.
pub open spec fn haves_fit(p: HubPicker, haves: Seq<Vec<bool>>) -> bool {
    &&& haves.len() == p.variants@.len()
    &&& forall|i: int| 0 <= i < haves.len() ==> {
        &&& (#[trigger] haves[i])@.len() == wanted_files_spec(p.media, p.wanted@, p.variants@[i].files@).len()
        &&& total_size(wanted_files_spec(p.media, p.wanted@, p.variants@[i].files@)) <= u64::MAX
    }
}

/// The chosen variant's upload flags; none when nothing is chosen.
pub open spec fn chosen_have(p: HubPicker, haves: Seq<Vec<bool>>) -> Seq<bool> {
    match p.chosen {
        Some(i) => if i < haves.len() { haves[i as int]@ } else { Seq::empty() },
        None => Seq::empty(),
    }
}

/// A row index as the dialog takes it: -1 for none, capped at `i32::MAX`.
pub open spec fn row_index(chosen: Option<usize>) -> i32 {
    match chosen {
        Some(i) => if i <= i32::MAX { i as i32 } else { i32::MAX },
        None => -1i32,
    }
}

/// What the 4KHDHub dialog shows in `phase`, `haves` giving the upload flags of each
/// variant once a page is loaded.
pub open spec fn shows_hub(v: HubView, phase: HubPhase, haves: Seq<Vec<bool>>) -> bool {
    &&& match phase {
        HubPhase::Busy(s) => {
            &&& v.phase == 0 && v.status@ == s@ && v.rows@.len() == 0 && v.chosen == -1 && v.skip_uploaded
            &&& v.host@.len() == 0 && v.note@.len() == 0 && v.queue_label@ == "QUEUE "@ + decimal(0)
            &&& v.focus == Focus { zone: ZoneId(HUB_FOOTER), index: 0 }
        },
        HubPhase::Url(s) => {
            &&& v.phase == 1 && v.status@ == s@ && v.rows@.len() == 0 && v.chosen == -1 && v.skip_uploaded
            &&& v.host@.len() == 0 && v.note@.len() == 0 && v.queue_label@ == "QUEUE "@ + decimal(0)
            &&& v.focus == Focus { zone: ZoneId(HUB_URL), index: 0 }
        },
        HubPhase::Loaded(p) => {
            &&& v.phase == 2 && v.status@.len() == 0
            &&& v.rows@.len() == p.variants@.len()
            &&& forall|i: int| 0 <= i < v.rows@.len() ==> shows_row(#[trigger] v.rows@[i], p, p.variants@[i], haves[i]@)
            &&& v.chosen == row_index(p.chosen)
            &&& v.skip_uploaded == p.skip_uploaded
            &&& v.host@ == host_spec(p.page@)
            &&& v.note@ == match chosen_variant(p) {
                Some(_) => uploaded_status(p.media, count_set(chosen_have(p, haves))),
                None => Seq::empty(),
            }
            &&& v.queue_label@ == "QUEUE "@ + decimal(match chosen_variant(p) {
                Some(cv) => queued_spec(wanted_files_spec(p.media, p.wanted@, cv.files@), chosen_have(p, haves), p.skip_uploaded).len(),
                None => 0,
            })
            &&& v.focus == Focus { zone: ZoneId(HUB_VARIANTS), index: if v.chosen < 0 { 0 } else { v.chosen as usize } }
        },
    }
    &&& v.zones@ == shows_hub_zones(v)
}

/// The 4KHDHub dialog for `phase`: a busy or URL phase shows its line; a loaded page shows
/// a row per variant, the choice, the skip toggle, the page's host, the uploaded note for
/// the chosen variant and QUEUE N; focus starts on the URL field, the chosen row or the
/// footer.
pub fn hub_view(phase: &HubPhase, haves: &Vec<Vec<bool>>) -> (v: HubView)
    requires
        *phase matches HubPhase::Loaded(p) ==> haves_fit(p, haves@),
    ensures
        shows_hub(v, *phase, haves@),
{
    match phase {
        HubPhase::Busy(s) => {
            let v = HubView {
                phase: 0,
                status: crate::text::owned(s.as_str()),
                rows: Vec::new(),
                chosen: -1,
                skip_uploaded: true,
                host: String::new(),
                note: String::new(),
                queue_label: queue_label(0),
                focus: Focus::new(ZoneId(HUB_FOOTER), 0),
                zones: hub_zones(false, 0),
            };
            assert(v.zones@ =~= shows_hub_zones(v));
            v
        },
        HubPhase::Url(s) => {
            let v = HubView {
                phase: 1,
                status: crate::text::owned(s.as_str()),
                rows: Vec::new(),
                chosen: -1,
                skip_uploaded: true,
                host: String::new(),
                note: String::new(),
                queue_label: queue_label(0),
                focus: Focus::new(ZoneId(HUB_URL), 0),
                zones: hub_zones(true, 0),
            };
            assert(v.zones@ =~= shows_hub_zones(v));
            v
        },
        HubPhase::Loaded(p) => loaded_view(p, haves),
    }
}

/// The zones the dialog `v` shows: the URL field and LOAD while asking for a URL, the rows,
/// the skip toggle under any row, and the footer.
pub open spec fn shows_hub_zones(v: HubView) -> Seq<Zone> {
    seq![
        Zone { id: ZoneId(HUB_URL), layout: Layout::Row, items: if v.phase == 1 { 1 } else { 0 }, text: true, preferred: 0 },
        Zone { id: ZoneId(HUB_LOAD), layout: Layout::Row, items: if v.phase == 1 { 1 } else { 0 }, text: false, preferred: 0 },
        Zone { id: ZoneId(HUB_VARIANTS), layout: Layout::List, items: v.rows@.len() as usize, text: false, preferred: 0 },
        Zone { id: ZoneId(HUB_SKIP), layout: Layout::Row, items: if v.rows@.len() > 0 { 1 } else { 0 }, text: false, preferred: 0 },
        Zone { id: ZoneId(HUB_FOOTER), layout: Layout::Row, items: 2, text: false, preferred: 0 },
    ]
}

fn loaded_view(p: &HubPicker, haves: &Vec<Vec<bool>>) -> (v: HubView)
    requires
        haves_fit(*p, haves@),
    ensures
        shows_hub(v, HubPhase::Loaded(*p), haves@),
{
    let mut rows: Vec<HubRow> = Vec::new();
    let mut i: usize = 0;
    while i < p.variants.len()
        invariant
            i <= p.variants@.len(),
            haves_fit(*p, haves@),
            rows@.len() == i,
            forall|k: int| 0 <= k < i ==> shows_row(#[trigger] rows@[k], *p, p.variants@[k], haves@[k]@),
        decreases p.variants@.len() - i,
    {
        assert(haves@[i as int]@.len() == wanted_files_spec(p.media, p.wanted@, p.variants@[i as int].files@).len());
        rows.push(p.row(&p.variants[i], &haves[i]));
        i = i + 1;
    }
    let chosen: i32 = match p.chosen {
        Some(c) => if c <= 0x7fff_ffff { c as i32 } else { 0x7fff_ffff },
        None => -1,
    };
    let empty: Vec<bool> = Vec::new();
    let have: &Vec<bool> = match p.chosen {
        Some(c) => if c < haves.len() { &haves[c] } else { &empty },
        None => &empty,
    };
    assert(have@ == chosen_have(*p, haves@));
    let queued = p.queued(have);
    let n = queued.len();
    assert(queued@.map_values(|f: &HubFile| *f).len() == n);
    let variants = rows.len();
    let v = HubView {
        phase: 2,
        status: String::new(),
        rows,
        chosen,
        skip_uploaded: p.skip_uploaded,
        host: host(p.page.as_str()),
        note: p.status(have),
        queue_label: queue_label(n),
        focus: Focus::new(ZoneId(HUB_VARIANTS), if chosen < 0 { 0 } else { chosen as usize }),
        zones: hub_zones(false, variants),
    };
    assert(v.zones@ =~= shows_hub_zones(v));
    v
}
} // verus!
