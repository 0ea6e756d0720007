//! The Library manager: every uploaded print grouped by title, the state stamp, the footer
//! line, the row texts, the confirm line and the zones.
use vstd::prelude::*;

use crate::focus::{Layout, Zone, ZoneId};
use crate::model::{entry_label, EpisodeKey, Entry, MediaType, TmdbId};
use crate::text::{
    chars_of, decimal, lemma_lex_irreflexive, lemma_lex_total, lemma_lex_transitive, lex_less, lex_lt, lower, pad2, push_decimal,
    push_pad2, push_str, string_of, to_lower, to_upper, trim_str, trimmed, upper,
};

verus! {

/// REFRESH.
pub const REFRESH: i32 = 32;
/// The prints.
pub const ENTRIES: i32 = 33;
/// The confirm dialog: CANCEL, DELETE.
pub const CONFIRM: i32 = 34;
pub const CONFIRM_CANCEL: usize = 0;
pub const CONFIRM_DELETE: usize = 1;

pub const READING: &'static str = "READING THE CHANNEL";
pub const EMPTY: &'static str = "LIBRARY IS EMPTY";
pub const NOT_CONNECTED: &'static str = "CONNECT TELEGRAM";

/// Where the manager's data stands.
#[derive(Debug, PartialEq, Eq)]
pub enum Load {
    /// Telegram is not set up or not signed in.
    NotConnected,
    Reading,
    Failed(String),
    Loaded,
}

/// The stamp shown in place of an empty list; empty when the list shows.
pub open spec fn stamp_spec(load: Load, entries: usize) -> Seq<char> {
    match load {
        Load::NotConnected => "CONNECT TELEGRAM"@,
        Load::Failed(e) => if entries == 0 { upper(e@) } else { Seq::empty() },
        Load::Reading => if entries == 0 { "READING THE CHANNEL"@ } else { Seq::empty() },
        Load::Loaded => if entries == 0 { "LIBRARY IS EMPTY"@ } else { Seq::empty() },
    }
}

/// The footer line: the error after a failed refresh of a shown list, or READING THE
/// CHANNEL while a shown list refreshes.
pub open spec fn status_spec(load: Load, entries: usize) -> Seq<char> {
    match load {
        Load::Failed(e) => if entries > 0 { upper(e@) } else { Seq::empty() },
        Load::Reading => if entries > 0 { "READING THE CHANNEL"@ } else { Seq::empty() },
        _ => Seq::empty(),
    }
}

/// The stamp shown in place of an empty list; empty when the list shows.
pub fn stamp(load: &Load, entries: usize) -> (r: String)
    ensures
        r@ == stamp_spec(*load, entries),
{
    match load {
        Load::NotConnected => crate::text::owned(NOT_CONNECTED),
        Load::Failed(e) => if entries == 0 { to_upper(e.as_str()) } else { String::new() },
        Load::Reading => if entries == 0 { crate::text::owned(READING) } else { String::new() },
        Load::Loaded => if entries == 0 { crate::text::owned(EMPTY) } else { String::new() },
    }
}

/// The footer line under a shown list.
pub fn status(load: &Load, entries: usize) -> (r: String)
    ensures
        r@ == status_spec(*load, entries),
{
    match load {
        Load::Failed(e) => if entries > 0 { to_upper(e.as_str()) } else { String::new() },
        Load::Reading => if entries > 0 { crate::text::owned(READING) } else { String::new() },
        _ => String::new(),
    }
}

/// The generation after `g`, wrapping at the top.
pub open spec fn next_generation(g: u64) -> u64 {
    if g == u64::MAX { 0 } else { (g + 1) as u64 }
}

/// REFRESH on the manager: with Telegram signed in and its client at hand (`connected`),
/// a new read starts under the next generation and the list reads READING THE CHANNEL;
/// else it reads CONNECT TELEGRAM and nothing is read. Returns the new state, the
/// generation now current and whether to start reading.
pub fn manager_refresh(connected: bool, generation: u64) -> (r: (Load, u64, bool))
    ensures
        r == (if connected {
            (Load::Reading, next_generation(generation), true)
        } else {
            (Load::NotConnected, generation, false)
        }),
{
    if !connected {
        return (Load::NotConnected, generation, false);
    }
    let next = if generation == u64::MAX { 0 } else { generation + 1 };
    (Load::Reading, next, true)
}

/// A read of the channel came back: results of an older refresh (`generation` is not
/// `current`) are dropped; else the list is LOADED, or FAILED with the error's message.
pub fn manager_loaded(current: u64, generation: u64, result: Result<(), String>) -> (r: Option<Load>)
    ensures
        r == (if generation != current {
            None
        } else {
            match result {
                Ok(()) => Some(Load::Loaded),
                Err(m) => Some(Load::Failed(m)),
            }
        }),
{
    if generation != current {
        return None;
    }
    match result {
        Ok(()) => Some(Load::Loaded),
        Err(m) => Some(Load::Failed(m)),
    }
}

/// `S01 E05` or `MOVIE`.
pub open spec fn key_label_spec(key: EpisodeKey) -> Seq<char> {
    match key.media {
        MediaType::Tv => seq!['S'] + pad2(key.season as nat) + " E"@ + pad2(key.episode as nat),
        MediaType::Movie => "MOVIE"@,
    }
}

/// `S01 E05` or `MOVIE`.
pub fn key_label(key: EpisodeKey) -> (r: String)
    ensures
        r@ == key_label_spec(key),
{
    match key.media {
        MediaType::Tv => {
            let mut out: Vec<char> = Vec::new();
            out.push('S');
            push_pad2(&mut out, key.season as u64);
            push_str(&mut out, " E");
            push_pad2(&mut out, key.episode as u64);
            string_of(&out)
        },
        MediaType::Movie => crate::text::owned("MOVIE"),
    }
}

/// One print.
#[derive(Debug, PartialEq, Eq)]
pub struct EntryRow {
    /// Position in the flat list (the focus index).
    pub index: usize,
    /// `S01 E05` or `MOVIE`.
    pub key: String,
    /// `2160P DV HEVC`.
    pub quality: String,
    /// `42.0 GB`.
    pub size: String,
}

/// One title and its prints.
#[derive(Debug, PartialEq, Eq)]
pub struct Group {
    pub title: String,
    pub rows: Vec<EntryRow>,
}

/// REFRESH, then the prints.
pub fn zones(entries: usize) -> (z: Vec<Zone>)
    ensures
        z@ == seq![
            Zone { id: ZoneId(REFRESH), layout: Layout::Row, items: 1, text: false, preferred: 0 },
            Zone { id: ZoneId(ENTRIES), layout: Layout::List, items: entries, text: false, preferred: 0 },
        ],
{
    let mut z: Vec<Zone> = Vec::new();
    z.push(Zone::row(ZoneId(REFRESH), 1));
    z.push(Zone::list(ZoneId(ENTRIES), entries));
    z
}

/// The confirm dialog: CANCEL, DELETE (CANCEL focused first).
pub fn confirm_zones() -> (z: Vec<Zone>)
    ensures
        z@ == seq![Zone { id: ZoneId(CONFIRM), layout: Layout::Row, items: 2, text: false, preferred: 0 }],
{
    let mut z: Vec<Zone> = Vec::new();
    z.push(Zone::row(ZoneId(CONFIRM), 2));
    z
}

/// The name saved for a title, the first listed for it.
pub open spec fn saved_name(names: Seq<((TmdbId, MediaType), String)>, id: TmdbId, media: MediaType) -> Option<Seq<char>>
    decreases names.len(),
{
    if names.len() == 0 {
        None
    } else if names[0].0 == (id, media) {
        Some(names[0].1@)
    } else {
        saved_name(names.drop_first(), id, media)
    }
}

/// The name of a title: the resolved one unless blank, else `TMDB <id>`.
pub open spec fn title_name_spec(names: Seq<((TmdbId, MediaType), String)>, id: TmdbId, media: MediaType) -> Seq<char> {
    match saved_name(names, id, media) {
        Some(n) => if trimmed(n).len() > 0 { n } else { "TMDB "@ + decimal(id as nat) },
        None => "TMDB "@ + decimal(id as nat),
    }
}

/// The name of a title: the resolved one unless blank, else `TMDB <id>`. `names` lists the
/// resolved names by title.
pub fn title_name(names: &Vec<((TmdbId, MediaType), String)>, id: TmdbId, media: MediaType) -> (r: String)
    ensures
        r@ == title_name_spec(names@, id, media),
{
    let mut i: usize = 0;
    assert(names@.skip(0) =~= names@);
    while i < names.len()
        invariant
            i <= names@.len(),
            saved_name(names@, id, media) == saved_name(names@.skip(i as int), id, media),
        decreases names@.len() - i,
    {
        proof {
            assert(names@.skip(i as int).drop_first() =~= names@.skip(i + 1));
        }
        if names[i].0.0 == id && names[i].0.1 == media {
            let t = trim_str(names[i].1.as_str());
            if t.len() > 0 {
                return names[i].1.clone();
            }
            let mut out: Vec<char> = Vec::new();
            push_str(&mut out, "TMDB ");
            push_decimal(&mut out, id);
            return string_of(&out);
        }
        i = i + 1;
    }
    let mut out: Vec<char> = Vec::new();
    push_str(&mut out, "TMDB ");
    push_decimal(&mut out, id);
    string_of(&out)
}

/// A print's label as its row shows it: `2160P DV HEVC`.
pub open spec fn row_quality(e: Entry) -> Seq<char> {
    upper(trimmed(entry_label(e)))
}

/// The confirm dialog's line: `Severance · S01 E05 · 2160P DV HEVC · 42.0 GB`, with the
/// print's size as `size` reads.
pub fn confirm_text(title: &str, e: &Entry, size: &str) -> (r: String)
    ensures
        r@ == title@ + " · "@ + key_label_spec(e.key) + " · "@ + row_quality(*e) + " · "@ + size@,
{
    let mut out: Vec<char> = Vec::new();
    push_str(&mut out, title);
    push_str(&mut out, " · ");
    push_str(&mut out, key_label(e.key).as_str());
    push_str(&mut out, " · ");
    push_str(&mut out, quality_text(e).as_str());
    push_str(&mut out, " · ");
    push_str(&mut out, size);
    string_of(&out)
}

/// `row_quality` in code.
fn quality_text(e: &Entry) -> (r: String)
    ensures
        r@ == row_quality(*e),
{
    let label = e.label();
    let t = trim_str(label.as_str());
    let ts = string_of(&t);
    to_upper(ts.as_str())
}

/// Where a print sorts in the manager: its title's name lowercased, the TMDB id, movies
/// before shows, then season, episode and label.
pub struct PrintKey {
    pub name: Vec<char>,
    pub id: TmdbId,
    pub show: bool,
    pub season: u32,
    pub episode: u32,
    pub label: Vec<char>,
}

/// A sort key as plain values.
pub open spec fn key_view(k: PrintKey) -> (Seq<char>, TmdbId, bool, u32, u32, Seq<char>) {
    (k.name@, k.id, k.show, k.season, k.episode, k.label@)
}

/// The sort key of a print.
pub open spec fn print_key(names: Seq<((TmdbId, MediaType), String)>, e: Entry) -> (Seq<char>, TmdbId, bool, u32, u32, Seq<char>) {
    (lower(title_name_spec(names, e.key.tmdb, e.key.media)), e.key.tmdb, e.key.media == MediaType::Tv, e.key.season, e.key.episode, entry_label(e))
}

/// Strict order of sort keys, field by field.
pub open spec fn key_lt(a: (Seq<char>, TmdbId, bool, u32, u32, Seq<char>), b: (Seq<char>, TmdbId, bool, u32, u32, Seq<char>)) -> bool {
    ||| lex_lt(a.0, b.0)
    ||| a.0 == b.0 && a.1 < b.1
    ||| a.0 == b.0 && a.1 == b.1 && !a.2 && b.2
    ||| a.0 == b.0 && a.1 == b.1 && a.2 == b.2 && a.3 < b.3
    ||| a.0 == b.0 && a.1 == b.1 && a.2 == b.2 && a.3 == b.3 && a.4 < b.4
    ||| a.0 == b.0 && a.1 == b.1 && a.2 == b.2 && a.3 == b.3 && a.4 == b.4 && lex_lt(a.5, b.5)
}

proof fn lemma_key_irreflexive(a: (Seq<char>, TmdbId, bool, u32, u32, Seq<char>))
    ensures
        !key_lt(a, a),
{
    lemma_lex_irreflexive(a.0);
    lemma_lex_irreflexive(a.5);
}

proof fn lemma_key_transitive(a: (Seq<char>, TmdbId, bool, u32, u32, Seq<char>), b: (Seq<char>, TmdbId, bool, u32, u32, Seq<char>), c: (Seq<char>, TmdbId, bool, u32, u32, Seq<char>))
    requires
        key_lt(a, b),
        key_lt(b, c),
    ensures
        key_lt(a, c),
{
    if lex_lt(a.0, b.0) && lex_lt(b.0, c.0) {
        lemma_lex_transitive(a.0, b.0, c.0);
    }
    if a.0 == b.0 && b.0 == c.0 && a.1 == b.1 && b.1 == c.1 && a.2 == b.2 && b.2 == c.2 && a.3 == b.3 && b.3 == c.3 && a.4 == b.4 && b.4 == c.4
        && lex_lt(a.5, b.5) && lex_lt(b.5, c.5) {
        lemma_lex_transitive(a.5, b.5, c.5);
    }
}

proof fn lemma_key_total(a: (Seq<char>, TmdbId, bool, u32, u32, Seq<char>), b: (Seq<char>, TmdbId, bool, u32, u32, Seq<char>))
    ensures
        a == b || key_lt(a, b) || key_lt(b, a),
{
    lemma_lex_total(a.0, b.0);
    lemma_lex_total(a.5, b.5);
}

/// `key_lt` in code.
fn key_less(a: &PrintKey, b: &PrintKey) -> (r: bool)
    ensures
        r == key_lt(key_view(*a), key_view(*b)),
{
    if lex_less(&a.name, &b.name) {
        return true;
    }
    if !lex_less(&b.name, &a.name) {
        proof {
            lemma_lex_total(a.name@, b.name@);
        }
    }
    if lex_less(&b.name, &a.name) {
        proof {
            lemma_lex_irreflexive(a.name@);
            if lex_lt(a.name@, b.name@) {
                lemma_lex_transitive(a.name@, b.name@, a.name@);
            }
        }
        return false;
    }
    if a.id != b.id {
        return a.id < b.id;
    }
    if a.show != b.show {
        return !a.show;
    }
    if a.season != b.season {
        return a.season < b.season;
    }
    if a.episode != b.episode {
        return a.episode < b.episode;
    }
    lex_less(&a.label, &b.label)
}

/// The sort key of each print, in order.
fn print_keys(entries: &Vec<Entry>, names: &Vec<((TmdbId, MediaType), String)>) -> (r: Vec<PrintKey>)
    ensures
        r@.len() == entries@.len(),
        forall|i: int| 0 <= i < r@.len() ==> key_view(#[trigger] r@[i]) == print_key(names@, entries@[i]),
{
    let mut out: Vec<PrintKey> = Vec::new();
    let mut i: usize = 0;
    while i < entries.len()
        invariant
            i <= entries@.len(),
            out@.len() == i,
            forall|k: int| 0 <= k < i ==> key_view(#[trigger] out@[k]) == print_key(names@, entries@[k]),
        decreases entries@.len() - i,
    {
        let e = &entries[i];
        let name = title_name(names, e.key.tmdb, e.key.media);
        let lowered = to_lower(name.as_str());
        let label = e.label();
        out.push(PrintKey {
            name: chars_of(lowered.as_str()),
            id: e.key.tmdb,
            show: e.key.media == MediaType::Tv,
            season: e.key.season,
            episode: e.key.episode,
            label: chars_of(label.as_str()),
        });
        i = i + 1;
    }
    out
}

/// `order` lists each position below `n` once.
pub open spec fn is_permutation(order: Seq<usize>, n: nat) -> bool {
    &&& order.len() == n
    &&& forall|k: int| 0 <= k < order.len() ==> order[k] < n
    &&& forall|a: int, b: int| 0 <= a < b < order.len() ==> order[a] != order[b]
}

/// `order` lists `keys` by position, stably sorted: no key after one it precedes, and equal
/// keys in their order.
pub open spec fn stable_order(keys: Seq<(Seq<char>, TmdbId, bool, u32, u32, Seq<char>)>, order: Seq<usize>) -> bool {
    &&& is_permutation(order, keys.len())
    &&& forall|a: int, b: int| 0 <= a < b < order.len() ==> !key_lt(keys[#[trigger] order[b] as int], keys[#[trigger] order[a] as int])
    &&& forall|a: int, b: int| 0 <= a < b < order.len() && keys[#[trigger] order[a] as int] == keys[#[trigger] order[b] as int] ==> order[a] < order[b]
}

/// The positions of `keys` stably sorted.
fn library_order(keys: &Vec<PrintKey>) -> (order: Vec<usize>)
    ensures
        stable_order(keys@.map_values(|k: PrintKey| key_view(k)), order@),
{
    let ghost ks = keys@.map_values(|k: PrintKey| key_view(k));
    let mut order: Vec<usize> = Vec::new();
    let mut i: usize = 0;
    while i < keys.len()
        invariant
            ks == keys@.map_values(|k: PrintKey| key_view(k)),
            i <= keys@.len(),
            order@.len() == i,
            forall|k: int| 0 <= k < order@.len() ==> order@[k] < i,
            forall|a: int, b: int| 0 <= a < b < order@.len() ==> order@[a] != order@[b],
            forall|a: int, b: int| 0 <= a < b < order@.len() ==> !key_lt(ks[#[trigger] order@[b] as int], ks[#[trigger] order@[a] as int]),
            forall|a: int, b: int| 0 <= a < b < order@.len() && ks[#[trigger] order@[a] as int] == ks[#[trigger] order@[b] as int] ==> order@[a] < order@[b],
        decreases keys@.len() - i,
    {
        let mut p: usize = 0;
        while p < order.len() && !key_less(&keys[i], &keys[order[p]])
            invariant
                ks == keys@.map_values(|k: PrintKey| key_view(k)),
                i < keys@.len(),
                p <= order@.len(),
                forall|k: int| 0 <= k < order@.len() ==> order@[k] < i,
                forall|k: int| 0 <= k < p ==> !key_lt(ks[i as int], ks[#[trigger] order@[k] as int]),
            decreases order@.len() - p,
        {
            p = p + 1;
        }
        let ghost old_order = order@;
        proof {
            assert forall|k: int| p <= k < old_order.len() implies ks[#[trigger] old_order[k] as int] != ks[i as int] && !key_lt(ks[old_order[k] as int], ks[i as int]) by {
                assert(key_lt(ks[i as int], ks[old_order[p as int] as int]));
                if k > p {
                    assert(!key_lt(ks[old_order[k] as int], ks[old_order[p as int] as int]));
                    if key_lt(ks[old_order[k] as int], ks[i as int]) {
                        lemma_key_transitive(ks[old_order[k] as int], ks[i as int], ks[old_order[p as int] as int]);
                    }
                } else {
                    lemma_key_irreflexive(ks[i as int]);
                    if key_lt(ks[old_order[k] as int], ks[i as int]) {
                        lemma_key_transitive(ks[i as int], ks[old_order[k] as int], ks[i as int]);
                    }
                }
            }
        }
        order.insert(p, i);
        proof {
            assert forall|a: int, b: int| 0 <= a < b < order@.len() implies !key_lt(ks[#[trigger] order@[b] as int], ks[#[trigger] order@[a] as int]) by {
                if b < p {
                    assert(order@[a] == old_order[a] && order@[b] == old_order[b]);
                } else if b == p {
                    assert(order@[a] == old_order[a]);
                } else if a == p {
                    assert(order@[b] == old_order[b - 1]);
                } else if a < p {
                    assert(order@[a] == old_order[a] && order@[b] == old_order[b - 1]);
                } else {
                    assert(order@[a] == old_order[a - 1] && order@[b] == old_order[b - 1]);
                }
            }
            assert forall|a: int, b: int| 0 <= a < b < order@.len() && ks[#[trigger] order@[a] as int] == ks[#[trigger] order@[b] as int] implies order@[a] < order@[b] by {
                if b < p {
                    assert(order@[a] == old_order[a] && order@[b] == old_order[b]);
                } else if b == p {
                    assert(order@[a] == old_order[a]);
                } else if a == p {
                    assert(order@[b] == old_order[b - 1]);
                } else if a < p {
                    assert(order@[a] == old_order[a] && order@[b] == old_order[b - 1]);
                } else {
                    assert(order@[a] == old_order[a - 1] && order@[b] == old_order[b - 1]);
                }
            }
            assert forall|a: int, b: int| 0 <= a < b < order@.len() implies order@[a] != order@[b] by {
                if b < p {
                    assert(order@[a] == old_order[a] && order@[b] == old_order[b]);
                } else if b == p {
                    assert(order@[a] == old_order[a]);
                } else if a == p {
                    assert(order@[b] == old_order[b - 1]);
                } else if a < p {
                    assert(order@[a] == old_order[a] && order@[b] == old_order[b - 1]);
                } else {
                    assert(order@[a] == old_order[a - 1] && order@[b] == old_order[b - 1]);
                }
            }
            assert forall|k: int| 0 <= k < order@.len() implies order@[k] < i + 1 by {
                if k < p {
                    assert(order@[k] == old_order[k]);
                } else if k > p {
                    assert(order@[k] == old_order[k - 1]);
                }
            }
        }
        i = i + 1;
    }
    order
}

/// A row as plain values: position, key, label and size.
pub open spec fn row_view(r: EntryRow) -> (usize, Seq<char>, Seq<char>, Seq<char>) {
    (r.index, r.key@, r.quality@, r.size@)
}

/// The rows of the groups, group after group.
pub open spec fn all_rows(groups: Seq<Group>) -> Seq<EntryRow>
    decreases groups.len(),
{
    if groups.len() == 0 {
        Seq::empty()
    } else {
        all_rows(groups.drop_last()) + groups.last().rows@
    }
}

/// The title a print belongs to.
pub open spec fn title_of(e: Entry) -> (TmdbId, MediaType) {
    (e.key.tmdb, e.key.media)
}

/// The prints `flat` in manager order and their groups, for the prints `entries` with the
/// resolved `names` and the size texts `sizes` (one per print): `flat` lists the prints
/// stably sorted by [`print_key`] (`order` gives where each came from); the rows, group
/// after group, are the flat prints in order with their position, key, label and size;
/// each group is a run of prints of one title, named after it, and the next group is
/// another title.
pub open spec fn library_grouping(
    entries: Seq<Entry>,
    names: Seq<((TmdbId, MediaType), String)>,
    sizes: Seq<String>,
    order: Seq<usize>,
    groups: Seq<Group>,
    flat: Seq<Entry>,
) -> bool {
    &&& stable_order(entries.map_values(|e: Entry| print_key(names, e)), order)
    &&& flat.len() == order.len()
    &&& forall|k: int| 0 <= k < flat.len() ==> #[trigger] flat[k] == entries[order[k] as int]
    &&& all_rows(groups).len() == flat.len()
    &&& forall|k: int| 0 <= k < flat.len() ==> row_view(#[trigger] all_rows(groups)[k]) == (k as usize, key_label_spec(flat[k].key), row_quality(flat[k]), sizes[order[k] as int]@)
    &&& forall|i: int| 0 <= i < groups.len() ==> {
        let g = #[trigger] groups[i];
        let t = title_of(flat[g.rows@[0].index as int]);
        &&& g.rows@.len() > 0
        &&& g.title@ == title_name_spec(names, t.0, t.1)
        &&& forall|j: int| 0 <= j < g.rows@.len() ==> title_of(flat[(#[trigger] g.rows@[j]).index as int]) == t
    }
    &&& forall|i: int| 0 < i < groups.len() ==> title_of(flat[(#[trigger] groups[i]).rows@[0].index as int]) != title_of(flat[groups[i - 1].rows@.last().index as int])
}

/// Groups the prints by title (sorted by lowercased name, then id, movies first), each
/// sorted by season, episode and label, ties in their order. Returns the groups and the
/// prints in the same flat order as the row indices. `sizes` holds each print's size as
/// text.
pub fn groups(entries: &Vec<Entry>, names: &Vec<((TmdbId, MediaType), String)>, sizes: &Vec<String>) -> (r: (Vec<Group>, Vec<Entry>))
    requires
        sizes@.len() == entries@.len(),
    ensures
        exists|order: Seq<usize>| library_grouping(entries@, names@, sizes@, order, r.0@, r.1@),
{
    let keys = print_keys(entries, names);
    let order = library_order(&keys);
    let ghost ks = entries@.map_values(|e: Entry| print_key(names@, e));
    proof {
        assert(keys@.map_values(|k: PrintKey| key_view(k)) =~= ks);
    }
    let n = order.len();
    let mut flat: Vec<Entry> = Vec::new();
    let mut k: usize = 0;
    while k < n
        invariant
            n == order@.len(),
            stable_order(ks, order@),
            ks.len() == entries@.len(),
            k <= n,
            flat@.len() == k,
            forall|j: int| 0 <= j < k ==> #[trigger] flat@[j] == entries@[order@[j] as int],
        decreases n - k,
    {
        flat.push(entries[order[k]].duplicate());
        k = k + 1;
    }
    let mut done: Vec<Group> = Vec::new();
    let mut cur: Vec<EntryRow> = Vec::new();
    let mut cur_title: String = String::new();
    let mut cur_t: (TmdbId, MediaType) = (0, MediaType::Movie);
    let ghost fl = flat@;
    let mut k: usize = 0;
    while k < n
        invariant
            n == order@.len(),
            fl == flat@,
            fl.len() == n,
            stable_order(ks, order@),
            ks.len() == entries@.len(),
            sizes@.len() == entries@.len(),
            k <= n,
            (all_rows(done@) + cur@).len() == k,
            forall|j: int| 0 <= j < k ==> row_view(#[trigger] (all_rows(done@) + cur@)[j]) == (j as usize, key_label_spec(fl[j].key), row_quality(fl[j]), sizes@[order@[j] as int]@),
            forall|i: int| 0 <= i < done@.len() ==> {
                let g = #[trigger] done@[i];
                let t = title_of(fl[g.rows@[0].index as int]);
                &&& g.rows@.len() > 0
                &&& g.title@ == title_name_spec(names@, t.0, t.1)
                &&& forall|j: int| 0 <= j < g.rows@.len() ==> title_of(fl[(#[trigger] g.rows@[j]).index as int]) == t
            },
            forall|i: int| 0 < i < done@.len() ==> title_of(fl[(#[trigger] done@[i]).rows@[0].index as int]) != title_of(fl[done@[i - 1].rows@.last().index as int]),
            k == 0 ==> done@.len() == 0 && cur@.len() == 0,
            k > 0 ==> {
                &&& cur@.len() > 0
                &&& cur_title@ == title_name_spec(names@, cur_t.0, cur_t.1)
                &&& forall|j: int| 0 <= j < cur@.len() ==> title_of(fl[(#[trigger] cur@[j]).index as int]) == cur_t
                &&& done@.len() > 0 ==> title_of(fl[done@.last().rows@.last().index as int]) != cur_t
            },
        decreases n - k,
    {
        let e = &flat[k];
        let t: (TmdbId, MediaType) = (e.key.tmdb, e.key.media);
        let fresh = k == 0 || t.0 != cur_t.0 || t.1 != cur_t.1;
        if k > 0 && fresh {
            let ghost before = done@;
            let ghost rows_before = all_rows(done@) + cur@;
            let g = Group { title: cur_title, rows: cur };
            done.push(g);
            cur = Vec::new();
            proof {
                assert(done@.drop_last() =~= before);
                assert(all_rows(done@) + cur@ =~= rows_before);
            }
            cur_title = String::new();
        }
        if fresh {
            cur_t = t;
            cur_title = title_name(names, t.0, t.1);
        }
        let row = EntryRow { index: k, key: key_label(e.key), quality: quality_text(e), size: sizes[order[k]].clone() };
        let ghost rows_before = all_rows(done@) + cur@;
        cur.push(row);
        proof {
            assert(all_rows(done@) + cur@ =~= rows_before.push(row));
        }
        k = k + 1;
    }
    if n > 0 {
        let ghost before = done@;
        let ghost rows_before = all_rows(done@) + cur@;
        done.push(Group { title: cur_title, rows: cur });
        proof {
            assert(done@.drop_last() =~= before);
            assert(all_rows(done@) =~= rows_before);
        }
    } else {
        proof {
            assert(all_rows(done@) + cur@ =~= all_rows(done@));
        }
    }
    let r = (done, flat);
    assert(library_grouping(entries@, names@, sizes@, order@, r.0@, r.1@));
    r
}

/// The prints of one title stand together in the manager's order: between two prints of a
/// title there is no print of another, so each title makes one group.
pub proof fn law_titles_stand_together(
    entries: Seq<Entry>,
    names: Seq<((TmdbId, MediaType), String)>,
    sizes: Seq<String>,
    order: Seq<usize>,
    groups: Seq<Group>,
    flat: Seq<Entry>,
    a: int,
    b: int,
    c: int,
)
    requires
        library_grouping(entries, names, sizes, order, groups, flat),
        0 <= a < b < c < flat.len(),
        title_of(flat[a]) == title_of(flat[c]),
    ensures
        title_of(flat[b]) == title_of(flat[a]),
{
    let ks = entries.map_values(|e: Entry| print_key(names, e));
    assert(flat[a] == entries[order[a] as int]);
    assert(flat[b] == entries[order[b] as int]);
    assert(flat[c] == entries[order[c] as int]);
    let ka = ks[order[a] as int];
    let kb = ks[order[b] as int];
    let kc = ks[order[c] as int];
    assert(ka == print_key(names, flat[a]));
    assert(kb == print_key(names, flat[b]));
    assert(kc == print_key(names, flat[c]));
    assert(!key_lt(kb, ka));
    assert(!key_lt(kc, kb));
    lemma_lex_total(ka.0, kb.0);
    if lex_lt(ka.0, kb.0) {
        assert(key_lt(kc, kb));
    }
    assert(ka.0 == kb.0);
    assert(ka.1 == kb.1);
    assert(ka.2 == kb.2);
}

} // verus!
