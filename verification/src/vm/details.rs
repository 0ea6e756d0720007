//! The Details screen: the title and episode meta lines with their library stamps, the
//! PLAY / RESUME label, the library-only filter, the initial season, the player requests
//! and the zones.
use vstd::prelude::*;

use crate::focus::{Layout, Zone, ZoneId};
use crate::text::owned;
use crate::model::{qualities, qualities_of, EpisodeInfo, EpisodeKey, LibraryView, MediaType, ProgressRecord, SeasonInfo, TitleDetails, TmdbId};
use crate::router::PlayRequest;
use crate::text::{decimal, pad2, push_decimal, push_pad2, push_str, string_of, to_upper, trimmed, upper};

verus! {

/// PLAY / RESUME.
pub const PLAY: i32 = 20;
/// The season pills.
pub const SEASONS: i32 = 21;
/// The episode list.
pub const EPISODES: i32 = 22;
/// The ingest action bar.
pub const INGEST: i32 = 23;

/// The play button.
#[derive(Debug, PartialEq, Eq)]
pub struct PlayLabel {
    pub text: String,
    /// True shows the continue icon instead of play.
    pub resume: bool,
}

/// The play button's text and whether it shows the continue icon: `PLAY`, `RESUME`, or
/// `RESUME S2 E3` for TV once some time was watched.
pub open spec fn play_label_spec(media: MediaType, progress: Option<ProgressRecord>) -> (Seq<char>, bool) {
    match resumable(progress) {
        Some(p) => (match media {
            MediaType::Movie => "RESUME"@,
            MediaType::Tv => "RESUME S"@ + decimal(p.season as nat) + " E"@ + decimal(p.episode as nat),
        }, true),
        None => ("PLAY"@, false),
    }
}

/// `PLAY`, `RESUME`, or `RESUME S2 E3` for TV: saved progress counts when some time was
/// watched.
pub fn play_label(media: MediaType, progress: Option<&ProgressRecord>) -> (l: PlayLabel)
    ensures
        (l.text@, l.resume) == play_label_spec(media, match progress { Some(p) => Some(*p), None => None }),
        match progress {
            Some(p) => if p.watched > 0 {
                l.resume && l.text@ == match media {
                    MediaType::Movie => "RESUME"@,
                    MediaType::Tv => "RESUME S"@ + decimal(p.season as nat) + " E"@ + decimal(p.episode as nat),
                }
            } else {
                !l.resume && l.text@ == "PLAY"@
            },
            None => !l.resume && l.text@ == "PLAY"@,
        },
{
    match progress {
        Some(p) => {
            if p.watched > 0 {
                match media {
                    MediaType::Movie => PlayLabel { text: crate::text::owned("RESUME"), resume: true },
                    MediaType::Tv => {
                        let mut out: Vec<char> = Vec::new();
                        push_str(&mut out, "RESUME S");
                        push_decimal(&mut out, p.season as u64);
                        push_str(&mut out, " E");
                        push_decimal(&mut out, p.episode as u64);
                        PlayLabel { text: string_of(&out), resume: true }
                    },
                }
            } else {
                PlayLabel { text: crate::text::owned("PLAY"), resume: false }
            }
        },
        None => PlayLabel { text: crate::text::owned("PLAY"), resume: false },
    }
}

/// A season pill's label: `S1`.
pub fn season_label(number: u32) -> (r: String)
    ensures
        r@ == seq!['S'] + decimal(number as nat),
{
    let mut out: Vec<char> = Vec::new();
    out.push('S');
    push_decimal(&mut out, number as u64);
    string_of(&out)
}

/// PLAY once loaded, the season pills, then the episodes.
pub fn zones(loaded: bool, seasons: usize, episodes: usize) -> (z: Vec<Zone>)
    ensures
        z@ == seq![
            Zone { id: ZoneId(PLAY), layout: Layout::Row, items: if loaded { 1 } else { 0 }, text: false, preferred: 0 },
            Zone { id: ZoneId(SEASONS), layout: Layout::Row, items: seasons, text: false, preferred: 0 },
            Zone { id: ZoneId(EPISODES), layout: Layout::List, items: episodes, text: false, preferred: 0 },
        ],
{
    vec![
        Zone::row(ZoneId(PLAY), if loaded { 1 } else { 0 }),
        Zone::row(ZoneId(SEASONS), seasons),
        Zone::list(ZoneId(EPISODES), episodes),
    ]
}


/// Saved progress that counts for resuming: some time was watched.
pub open spec fn resumable(progress: Option<ProgressRecord>) -> Option<ProgressRecord> {
    match progress {
        Some(p) => if p.watched > 0 { Some(p) } else { None },
        None => None,
    }
}

/// The season selected on open: the saved one if it is listed, else the first.
pub open spec fn initial_season_spec(seasons: Seq<SeasonInfo>, saved: Option<u32>) -> Option<u32> {
    match saved {
        Some(n) => if exists|i: int| 0 <= i < seasons.len() && (#[trigger] seasons[i]).number == n {
            Some(n)
        } else if seasons.len() > 0 {
            Some(seasons[0].number)
        } else {
            None
        },
        None => if seasons.len() > 0 { Some(seasons[0].number) } else { None },
    }
}

/// The season selected on open: the saved one if it is listed, else the first.
pub fn initial_season(seasons: &Vec<SeasonInfo>, progress: Option<&ProgressRecord>) -> (r: Option<u32>)
    ensures
        r == initial_season_spec(seasons@, match progress {
            Some(p) => Some(p.season),
            None => None,
        }),
{
    match progress {
        Some(p) => {
            let saved = p.season;
            let mut i: usize = 0;
            while i < seasons.len()
                invariant
                    i <= seasons@.len(),
                    progress is Some && progress.unwrap().season == saved,
                    forall|j: int| 0 <= j < i ==> (#[trigger] seasons@[j]).number != saved,
                decreases seasons@.len() - i,
            {
                if seasons[i].number == saved {
                    assert(seasons@[i as int].number == saved);
                    return Some(saved);
                }
                i = i + 1;
            }
        },
        None => {},
    }
    if seasons.len() > 0 {
        Some(seasons[0].number)
    } else {
        None
    }
}

/// PLAY / RESUME: the saved episode and position, else the start. For TV without progress
/// that is `first` (the first listed episode, which matters in library-only mode) or S1 E1.
pub open spec fn play_request_spec(id: TmdbId, media: MediaType, progress: Option<ProgressRecord>, first: Option<(u32, u32)>, library_only: bool) -> PlayRequest {
    let saved = resumable(progress);
    let key = match media {
        MediaType::Movie => EpisodeKey::movie_spec(id),
        MediaType::Tv => match saved {
            Some(p) => EpisodeKey::episode_spec(id, p.season, p.episode),
            None => match first {
                Some((s, e)) => EpisodeKey::episode_spec(id, s, e),
                None => EpisodeKey::episode_spec(id, 1, 1),
            },
        },
    };
    PlayRequest {
        key,
        start_at: match saved {
            Some(p) => Some(p.watched),
            None => None,
        },
        library_only,
    }
}

/// PLAY / RESUME on the title `d`.
pub fn play_request(d: &TitleDetails, progress: Option<&ProgressRecord>, first: Option<(u32, u32)>, library_only: bool) -> (r: PlayRequest)
    ensures
        r == play_request_spec(d.summary.id, d.summary.media, match progress {
            Some(p) => Some(*p),
            None => None,
        }, first, library_only),
{
    let id = d.summary.id;
    let media = d.summary.media;
    let saved: Option<&ProgressRecord> = match progress {
        Some(p) => if p.watched > 0 { Some(p) } else { None },
        None => None,
    };
    let key = match media {
        MediaType::Movie => EpisodeKey::movie(id),
        MediaType::Tv => match saved {
            Some(p) => EpisodeKey::episode(id, p.season, p.episode),
            None => match first {
                Some((s, e)) => EpisodeKey::episode(id, s, e),
                None => EpisodeKey::episode(id, 1, 1),
            },
        },
    };
    PlayRequest {
        key,
        start_at: match saved {
            Some(p) => Some(p.watched),
            None => None,
        },
        library_only,
    }
}

/// An episode: resumes only when it is the saved episode.
pub fn episode_request(id: TmdbId, e: &EpisodeInfo, progress: Option<&ProgressRecord>, library_only: bool) -> (r: PlayRequest)
    ensures
        r.key == EpisodeKey::episode_spec(id, e.season, e.episode),
        r.library_only == library_only,
        r.start_at == match progress {
            Some(p) => if p.watched > 0 && p.season == e.season && p.episode == e.episode { Some(p.watched) } else { None },
            None => None,
        },
{
    let start_at = match progress {
        Some(p) => if p.watched > 0 && p.season == e.season && p.episode == e.episode { Some(p.watched) } else { None },
        None => None,
    };
    PlayRequest { key: EpisodeKey::episode(id, e.season, e.episode), start_at, library_only }
}

/// A quality as a stamp: trimmed and uppercased.
pub open spec fn stamp_of(q: Seq<char>) -> Seq<char> {
    upper(trimmed(q))
}

/// The non-empty stamps of some qualities, joined with `, `.
pub open spec fn joined_stamps(qs: Seq<Seq<char>>) -> Seq<char>
    decreases qs.len(),
{
    if qs.len() == 0 {
        Seq::empty()
    } else {
        let rest = joined_stamps(qs.drop_last());
        let s = stamp_of(qs.last());
        if s.len() == 0 {
            rest
        } else if rest.len() == 0 {
            s
        } else {
            rest + ", "@ + s
        }
    }
}

/// `E01 · 42 MIN [· LIBRARY · 1080P, 2160P DV]`.
pub open spec fn episode_meta_spec(e: EpisodeInfo, qualities: Seq<Seq<char>>) -> Seq<char> {
    let head = seq!['E'] + pad2(e.episode as nat);
    let with_runtime = match e.runtime_min {
        Some(m) => head + " · "@ + decimal(m as nat) + " MIN"@,
        None => head,
    };
    let stamps = joined_stamps(qualities);
    if stamps.len() == 0 { with_runtime } else { with_runtime + " · LIBRARY · "@ + stamps }
}

/// `E01 · 42 MIN [· LIBRARY · 1080P, 2160P DV]`.
pub fn episode_meta(e: &EpisodeInfo, library_qualities: &Vec<String>) -> (r: String)
    ensures
        r@ == episode_meta_spec(*e, library_qualities@.map_values(|q: String| q@)),
{
    let ghost qv = library_qualities@.map_values(|q: String| q@);
    let mut out: Vec<char> = Vec::new();
    out.push('E');
    push_pad2(&mut out, e.episode as u64);
    match e.runtime_min {
        Some(m) => {
            push_str(&mut out, " · ");
            push_decimal(&mut out, m as u64);
            push_str(&mut out, " MIN");
        },
        None => {},
    }
    let mut stamps: Vec<char> = Vec::new();
    push_stamps(&mut stamps, library_qualities);
    if stamps.len() > 0 {
        push_str(&mut out, " · LIBRARY · ");
        out.append(&mut stamps);
    }
    assert(out@ =~= episode_meta_spec(*e, qv));
    string_of(&out)
}

/// True when some episode of `season` has a print.
pub open spec fn season_in_library<L: LibraryView>(id: TmdbId, season: SeasonInfo, lib: L) -> bool {
    exists|e: u32| 1 <= e <= season.episode_count && lib.prints_of(EpisodeKey::episode_spec(id, season.number, e)).len() > 0
}

fn season_in_library_exec<L: LibraryView>(id: TmdbId, season: &SeasonInfo, lib: &L) -> (r: bool)
    ensures
        r == season_in_library(id, *season, *lib),
{
    let mut e: u64 = 1;
    while e <= season.episode_count as u64
        invariant
            1 <= e <= season.episode_count as u64 + 1,
            forall|k: u32| 1 <= k < e ==> lib.prints_of(#[trigger] EpisodeKey::episode_spec(id, season.number, k)).len() == 0,
        decreases season.episode_count as u64 + 1 - e,
    {
        let ep = e as u32;
        if lib.prints(EpisodeKey::episode(id, season.number, ep)).len() > 0 {
            return true;
        }
        e = e + 1;
    }
    false
}

/// The season pills: every season, or in library-only mode just the uploaded ones.
pub fn visible_seasons<L: LibraryView>(d: &TitleDetails, lib: &L, library_only: bool) -> (r: Vec<SeasonInfo>)
    ensures
        r@ == d.seasons@.filter(|s: SeasonInfo| !library_only || season_in_library(d.summary.id, s, *lib)),
{
    let id = d.summary.id;
    let seasons = &d.seasons;
    let ghost keep = |s: SeasonInfo| !library_only || season_in_library(id, s, *lib);
    let mut out: Vec<SeasonInfo> = Vec::new();
    let mut i: usize = 0;
    while i < seasons.len()
        invariant
            i <= seasons@.len(),
            keep == (|s: SeasonInfo| !library_only || season_in_library(id, s, *lib)),
            out@ == seasons@.take(i as int).filter(keep),
        decreases seasons@.len() - i,
    {
        let ghost t = seasons@.take(i + 1);
        proof {
            reveal(Seq::filter);
            assert(t.drop_last() =~= seasons@.take(i as int));
            assert(t.last() == seasons@[i as int]);
            assert(t.filter(keep) == if keep(t.last()) { t.drop_last().filter(keep).push(t.last()) } else { t.drop_last().filter(keep) });
        }
        let s = seasons[i];
        if !library_only || season_in_library_exec(id, &s, lib) {
            out.push(s);
        }
        i = i + 1;
    }
    assert(seasons@.take(seasons@.len() as int) =~= seasons@);
    out
}

/// True when the episode has a print.
pub open spec fn episode_in_library<L: LibraryView>(id: TmdbId, e: EpisodeInfo, lib: L) -> bool {
    lib.prints_of(EpisodeKey::episode_spec(id, e.season, e.episode)).len() > 0
}

/// The episode list: every episode, or in library-only mode just the uploaded ones, in
/// their order.
pub fn visible_episodes<L: LibraryView>(id: TmdbId, episodes: Vec<EpisodeInfo>, lib: &L, library_only: bool) -> (r: Vec<EpisodeInfo>)
    ensures
        r@ == episodes@.filter(|e: EpisodeInfo| !library_only || episode_in_library(id, e, *lib)),
{
    let ghost keep = |e: EpisodeInfo| !library_only || episode_in_library(id, e, *lib);
    let ghost all = episodes@;
    let mut rest = episodes;
    let n = rest.len();
    let mut out: Vec<EpisodeInfo> = Vec::new();
    let mut i: usize = 0;
    while rest.len() > 0
        invariant
            keep == (|e: EpisodeInfo| !library_only || episode_in_library(id, e, *lib)),
            i + rest@.len() == all.len(),
            all.len() == n,
            rest@ == all.subrange(i as int, all.len() as int),
            out@ == all.take(i as int).filter(keep),
        decreases rest@.len(),
    {
        let e = rest.remove(0);
        let ghost t = all.take(i + 1);
        proof {
            reveal(Seq::filter);
            assert(e == all[i as int]);
            assert(t.drop_last() =~= all.take(i as int));
            assert(t.last() == all[i as int]);
        }
        let shown = !library_only || lib.prints(EpisodeKey::episode(id, e.season, e.episode)).len() > 0;
        if shown {
            out.push(e);
        }
        i = i + 1;
        proof {
            assert(rest@ =~= all.subrange(i as int, all.len() as int));
        }
    }
    assert(all.take(all.len() as int) =~= all);
    out
}

/// `YEAR · TV|MOVIE · N MIN [· LIBRARY · 1080P, 2160P DV]`: the parts that are known;
/// the library stamp is made of the non-empty qualities, trimmed and uppercased.
pub open spec fn meta_line_spec(year: Option<u16>, media: MediaType, runtime_min: Option<u32>, qualities: Seq<Seq<char>>) -> Seq<char> {
    let kind = match media {
        MediaType::Movie => "MOVIE"@,
        MediaType::Tv => "TV"@,
    };
    let head = match year {
        Some(y) => decimal(y as nat) + " · "@ + kind,
        None => kind,
    };
    let with_runtime = match runtime_min {
        Some(m) => head + " · "@ + decimal(m as nat) + " MIN"@,
        None => head,
    };
    let stamps = joined_stamps(qualities);
    if stamps.len() == 0 { with_runtime } else { with_runtime + " · LIBRARY · "@ + stamps }
}

/// The stamps of `qualities` (trimmed, uppercased, the empty ones left out), joined with `, `.
fn push_stamps(out: &mut Vec<char>, qualities: &Vec<String>)
    ensures
        final(out)@ == old(out)@ + joined_stamps(qualities@.map_values(|q: String| q@)),
{
    let ghost qv = qualities@.map_values(|q: String| q@);
    let ghost base = out@;
    let mut stamps: Vec<char> = Vec::new();
    let mut i: usize = 0;
    while i < qualities.len()
        invariant
            i <= qualities@.len(),
            qv == qualities@.map_values(|q: String| q@),
            stamps@ == joined_stamps(qv.take(i as int)),
        decreases qualities@.len() - i,
    {
        proof {
            assert(qv.take(i + 1).drop_last() =~= qv.take(i as int));
            assert(qv.take(i + 1).last() == qualities@[i as int]@);
        }
        let t = crate::text::trim_str(qualities[i].as_str());
        let ts = string_of(&t);
        let s = to_upper(ts.as_str());
        if s.unicode_len() > 0 {
            if stamps.len() > 0 {
                push_str(&mut stamps, ", ");
            }
            push_str(&mut stamps, s.as_str());
        }
        i = i + 1;
    }
    assert(qv.take(qualities@.len() as int) =~= qv);
    out.append(&mut stamps);
}

/// The title line: `YEAR · TV|MOVIE · N MIN [· LIBRARY · 1080P, 2160P DV]`. The library
/// stamp is shown for movies; TV stamps sit on the episodes.
pub fn header_meta<L: LibraryView>(d: &TitleDetails, lib: &L) -> (r: String)
    ensures
        r@ == meta_line_spec(d.summary.year, d.summary.media, d.runtime_min, match d.summary.media {
            MediaType::Movie => qualities_of(lib.prints_of(EpisodeKey::movie_spec(d.summary.id))),
            MediaType::Tv => Seq::empty(),
        }),
{
    let stamps: Vec<String> = match d.summary.media {
        MediaType::Movie => qualities(lib, EpisodeKey::movie(d.summary.id)),
        MediaType::Tv => Vec::new(),
    };
    let mut out: Vec<char> = Vec::new();
    match d.summary.year {
        Some(y) => {
            push_decimal(&mut out, y as u64);
            push_str(&mut out, " · ");
        },
        None => {},
    }
    match d.summary.media {
        MediaType::Movie => push_str(&mut out, "MOVIE"),
        MediaType::Tv => push_str(&mut out, "TV"),
    }
    match d.runtime_min {
        Some(m) => {
            push_str(&mut out, " · ");
            push_decimal(&mut out, m as u64);
            push_str(&mut out, " MIN");
        },
        None => {},
    }
    let mut joined: Vec<char> = Vec::new();
    push_stamps(&mut joined, &stamps);
    if joined.len() > 0 {
        push_str(&mut out, " · LIBRARY · ");
        out.append(&mut joined);
    }
    proof {
        assert(stamps@.map_values(|q: String| q@) =~= match d.summary.media {
            MediaType::Movie => qualities_of(lib.prints_of(EpisodeKey::movie_spec(d.summary.id))),
            MediaType::Tv => Seq::<Seq<char>>::empty(),
        });
    }
    assert(out@ =~= meta_line_spec(d.summary.year, d.summary.media, d.runtime_min, stamps@.map_values(|q: String| q@)));
    string_of(&out)
}

/// A season pill: `S1`, and whether it is the selected season.
#[derive(Debug, PartialEq, Eq)]
pub struct SeasonPill {
    pub label: String,
    pub selected: bool,
}

/// The details screen once its title has loaded.
#[derive(Debug, PartialEq, Eq)]
pub struct DetailsScreen {
    /// `YEAR · TV|MOVIE · N MIN [· LIBRARY · …]`.
    pub meta: String,
    pub play: PlayLabel,
    /// The seasons offered: the visible ones for a show, none for a movie.
    pub seasons: Vec<SeasonInfo>,
    pub pills: Vec<SeasonPill>,
    /// The season selected, whose episodes load next.
    pub selected: Option<u32>,
    /// The selected season's pill, where focus in the pills starts.
    pub selected_index: usize,
    pub zones: Vec<Zone>,
}

/// The seasons a title's screen offers: the visible ones for a show, none for a movie.
pub open spec fn offered_seasons<L: LibraryView>(d: TitleDetails, lib: L, library_only: bool) -> Seq<SeasonInfo> {
    if d.summary.media == MediaType::Tv {
        d.seasons@.filter(|s: SeasonInfo| !library_only || season_in_library(d.summary.id, s, lib))
    } else {
        Seq::empty()
    }
}

/// `i` is where season `n` is first listed, or 0 when it is not listed.
pub open spec fn first_position(seasons: Seq<SeasonInfo>, n: Option<u32>, i: int) -> bool {
    if exists|k: int| 0 <= k < seasons.len() && Some((#[trigger] seasons[k]).number) == n {
        &&& 0 <= i < seasons.len()
        &&& Some(seasons[i].number) == n
        &&& forall|k: int| 0 <= k < i ==> Some((#[trigger] seasons[k]).number) != n
    } else {
        i == 0
    }
}

/// What the details screen `v` shows for title `d`: the offered seasons, the initial
/// season and its pill, the pills, the play button, the header line and the zones.
pub open spec fn shows_details<L: LibraryView>(v: DetailsScreen, d: TitleDetails, lib: L, library_only: bool, progress: Option<ProgressRecord>) -> bool {
    &&& v.seasons@ == offered_seasons(d, lib, library_only)
    &&& v.selected == initial_season_spec(v.seasons@, match progress { Some(p) => Some(p.season), None => None })
    &&& first_position(v.seasons@, v.selected, v.selected_index as int)
    &&& v.pills@.len() == v.seasons@.len()
    &&& forall|i: int| 0 <= i < v.pills@.len() ==> (#[trigger] v.pills@[i]).label@ == seq!['S'] + decimal(v.seasons@[i].number as nat)
            && v.pills@[i].selected == (Some(v.seasons@[i].number) == v.selected)
    &&& (v.play.text@, v.play.resume) == play_label_spec(d.summary.media, progress)
    &&& v.meta@ == meta_line_spec(d.summary.year, d.summary.media, d.runtime_min, match d.summary.media {
            MediaType::Movie => qualities_of(lib.prints_of(EpisodeKey::movie_spec(d.summary.id))),
            MediaType::Tv => Seq::empty(),
        })
    &&& v.zones@ == seq![
            Zone { id: ZoneId(PLAY), layout: Layout::Row, items: 1, text: false, preferred: 0 },
            Zone { id: ZoneId(SEASONS), layout: Layout::Row, items: v.seasons@.len() as usize, text: false, preferred: 0 },
            Zone { id: ZoneId(EPISODES), layout: Layout::List, items: 0, text: false, preferred: 0 },
        ]
}

/// The details screen for a loaded title: the header line, the play button, the season
/// pills with the initial season selected (the saved one, else the first), and the zones.
pub fn details_screen<L: LibraryView>(d: &TitleDetails, lib: &L, library_only: bool, progress: Option<&ProgressRecord>) -> (v: DetailsScreen)
    ensures
        shows_details(v, *d, *lib, library_only, match progress { Some(p) => Some(*p), None => None }),
{
    let seasons: Vec<SeasonInfo> = if d.summary.media == MediaType::Tv {
        visible_seasons(d, lib, library_only)
    } else {
        Vec::new()
    };
    proof {
        if d.summary.media != MediaType::Tv {
            assert(seasons@ =~= offered_seasons(*d, *lib, library_only));
        }
    }
    let selected = initial_season(&seasons, progress);
    let mut pills: Vec<SeasonPill> = Vec::new();
    let mut selected_index: usize = 0;
    let mut found = false;
    let mut i: usize = 0;
    while i < seasons.len()
        invariant
            i <= seasons@.len(),
            pills@.len() == i,
            forall|k: int| 0 <= k < i ==> (#[trigger] pills@[k]).label@ == seq!['S'] + decimal(seasons@[k].number as nat)
                && pills@[k].selected == (Some(seasons@[k].number) == selected),
            found ==> 0 <= selected_index < i && Some(seasons@[selected_index as int].number) == selected
                && forall|k: int| 0 <= k < selected_index ==> Some((#[trigger] seasons@[k]).number) != selected,
            !found ==> selected_index == 0 && forall|k: int| 0 <= k < i ==> Some((#[trigger] seasons@[k]).number) != selected,
        decreases seasons@.len() - i,
    {
        let n = seasons[i].number;
        let here = match selected {
            Some(s) => s == n,
            None => false,
        };
        if here && !found {
            found = true;
            selected_index = i;
        }
        pills.push(SeasonPill { label: season_label(n), selected: here });
        i = i + 1;
    }
    proof {
        if !found {
            assert(!exists|k: int| 0 <= k < seasons@.len() && Some((#[trigger] seasons@[k]).number) == selected);
        }
    }
    let n = seasons.len();
    DetailsScreen {
        meta: header_meta(d, lib),
        play: play_label(d.summary.media, progress),
        seasons,
        pills,
        selected,
        selected_index,
        zones: zones(true, n, 0),
    }
}

/// What a details request coming back does to the screen.
#[derive(Debug, PartialEq, Eq)]
pub enum DetailsLoad {
    /// It answers an older request: nothing changes.
    Stale,
    /// The request failed: the screen reads REQUEST FAILED.
    Failed,
    Shown(DetailsScreen),
}

/// A details request under `generation` came back with `result` (`None` when it failed)
/// while `current` is the screen's generation.
pub fn details_loaded<L: LibraryView>(
    current: u64,
    generation: u64,
    result: Option<&TitleDetails>,
    lib: &L,
    library_only: bool,
    progress: Option<&ProgressRecord>,
) -> (r: DetailsLoad)
    ensures
        generation != current ==> r == DetailsLoad::Stale,
        generation == current && result is None ==> r == DetailsLoad::Failed,
        generation == current && result is Some ==> (r matches DetailsLoad::Shown(v)
            && shows_details(v, *result.unwrap(), *lib, library_only, match progress { Some(p) => Some(*p), None => None })),
{
    if generation != current {
        return DetailsLoad::Stale;
    }
    match result {
        None => DetailsLoad::Failed,
        Some(d) => DetailsLoad::Shown(details_screen(d, lib, library_only, progress)),
    }
}

/// The episodes with a still image, each with its row: what to fetch for the rows.
pub open spec fn stills_spec(episodes: Seq<EpisodeInfo>) -> Seq<(usize, Seq<char>)>
    decreases episodes.len(),
{
    if episodes.len() == 0 {
        Seq::empty()
    } else {
        let rest = stills_spec(episodes.drop_last());
        match episodes.last().still_path {
            Some(p) => rest.push(((episodes.len() - 1) as usize, p@)),
            None => rest,
        }
    }
}

/// A season's episode list once loaded.
#[derive(Debug, PartialEq, Eq)]
pub struct EpisodesScreen {
    /// The episodes shown, in order.
    pub episodes: Vec<EpisodeInfo>,
    /// Each row's meta line.
    pub metas: Vec<String>,
    /// NO RESULTS over an empty list, else empty.
    pub stamp: &'static str,
    /// The rows whose still is fetched, with its path.
    pub stills: Vec<(usize, String)>,
}

/// What the episode list `v` shows for season listing `all` of title `id`: the visible
/// episodes, the NO RESULTS stamp over an empty list, each row's meta line, the stills.
pub open spec fn shows_episodes<L: LibraryView>(v: EpisodesScreen, id: TmdbId, all: Seq<EpisodeInfo>, lib: L, library_only: bool) -> bool {
    &&& v.episodes@ == all.filter(|e: EpisodeInfo| !library_only || episode_in_library(id, e, lib))
    &&& v.stamp@ == (if v.episodes@.len() == 0 { "NO RESULTS"@ } else { Seq::empty() })
    &&& v.metas@.len() == v.episodes@.len()
    &&& forall|i: int| 0 <= i < v.metas@.len() ==> (#[trigger] v.metas@[i])@ == episode_meta_spec(v.episodes@[i],
            qualities_of(lib.prints_of(EpisodeKey::episode_spec(id, v.episodes@[i].season, v.episodes@[i].episode))))
    &&& v.stills@.map_values(|s: (usize, String)| (s.0, s.1@)) == stills_spec(v.episodes@)
}

/// The episode rows of a loaded season: the visible episodes, each with its meta line
/// (the library's qualities for that episode), the NO RESULTS stamp when none is left,
/// and the stills to fetch.
pub fn episodes_screen<L: LibraryView>(id: TmdbId, all: Vec<EpisodeInfo>, lib: &L, library_only: bool) -> (v: EpisodesScreen)
    ensures
        shows_episodes(v, id, all@, *lib, library_only),
{
    let episodes = visible_episodes(id, all, lib, library_only);
    let mut metas: Vec<String> = Vec::new();
    let mut stills: Vec<(usize, String)> = Vec::new();
    let mut i: usize = 0;
    while i < episodes.len()
        invariant
            i <= episodes@.len(),
            metas@.len() == i,
            forall|k: int| 0 <= k < i ==> (#[trigger] metas@[k])@ == episode_meta_spec(episodes@[k],
                qualities_of(lib.prints_of(EpisodeKey::episode_spec(id, episodes@[k].season, episodes@[k].episode)))),
            stills@.map_values(|s: (usize, String)| (s.0, s.1@)) == stills_spec(episodes@.take(i as int)),
        decreases episodes@.len() - i,
    {
        let e = &episodes[i];
        let q = qualities(lib, EpisodeKey::episode(id, e.season, e.episode));
        metas.push(episode_meta(e, &q));
        let ghost before = stills@;
        proof {
            assert(episodes@.take(i + 1).drop_last() =~= episodes@.take(i as int));
            assert(episodes@.take(i + 1).last() == episodes@[i as int]);
        }
        match &e.still_path {
            Some(p) => {
                stills.push((i, owned(p.as_str())));
                proof {
                    assert(stills@.map_values(|s: (usize, String)| (s.0, s.1@)) =~= before.map_values(|s: (usize, String)| (s.0, s.1@)).push((i, p@)));
                }
            },
            None => {},
        }
        i = i + 1;
    }
    assert(episodes@.take(episodes@.len() as int) =~= episodes@);
    let stamp = if episodes.len() == 0 { "NO RESULTS" } else { "" };
    proof {
        reveal_strlit("NO RESULTS");
        reveal_strlit("");
    }
    let v = EpisodesScreen { episodes, metas, stamp, stills };
    assert(v.episodes@ == all@.filter(|e: EpisodeInfo| !library_only || episode_in_library(id, e, *lib)));
    assert(v.stamp@ == (if v.episodes@.len() == 0 { "NO RESULTS"@ } else { Seq::empty() }));
    assert(v.stills@.map_values(|s: (usize, String)| (s.0, s.1@)) == stills_spec(v.episodes@));
    v
}

/// What a season request coming back does to the episode list.
#[derive(Debug, PartialEq, Eq)]
pub enum EpisodesLoad {
    /// It answers an older request: nothing changes.
    Stale,
    /// The request failed: the list reads REQUEST FAILED.
    Failed,
    Shown(EpisodesScreen),
}

/// A season request under `generation` came back with `result` (`None` when it failed)
/// while `current` is the list's generation.
pub fn episodes_loaded<L: LibraryView>(
    current: u64,
    generation: u64,
    id: TmdbId,
    result: Option<Vec<EpisodeInfo>>,
    lib: &L,
    library_only: bool,
) -> (r: EpisodesLoad)
    ensures
        generation != current ==> r == EpisodesLoad::Stale,
        generation == current && result is None ==> r == EpisodesLoad::Failed,
        generation == current && result is Some ==> (r matches EpisodesLoad::Shown(v)
            && shows_episodes(v, id, result.unwrap()@, *lib, library_only)),
{
    if generation != current {
        return EpisodesLoad::Stale;
    }
    match result {
        None => EpisodesLoad::Failed,
        Some(all) => EpisodesLoad::Shown(episodes_screen(id, all, lib, library_only)),
    }
}

} // verus!
