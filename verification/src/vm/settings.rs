//! The Settings screen: its rows in screen order, their labels, the texts of its values
//! and dialogs and its zones.
use vstd::prelude::*;

use crate::focus::{Layout, Zone, ZoneId};
use crate::focus::Focus;
use crate::model::{AuthState, TelegramStatus};
use crate::router::Route;
use crate::text::{push_str, same_text, string_of, to_upper, trim_str, trimmed, upper};
use crate::vm::ingest::{parse_u32_chars, parse_u32_spec};

verus! {

/// The rows.
pub const LIST: i32 = 60;
/// A single-choice dialog's options.
pub const OPTIONS: i32 = 61;
/// A text dialog's field.
pub const FIELD: i32 = 62;
/// A dialog's buttons: CANCEL (and OK).
pub const BUTTONS: i32 = 63;
pub const CANCEL: usize = 0;
pub const OK: usize = 1;

pub const EYEBROW: &'static str = "FLOX";
pub const TITLE: &'static str = "Settings";
pub const HINT: &'static str = "CENTER CHANGE · LEFT RIGHT CYCLE · BACK EXIT";
pub const ON: &'static str = "ON";
pub const OFF: &'static str = "OFF";
pub const HIGHEST: &'static str = "HIGHEST";
pub const ANY: &'static str = "ANY";
pub const DEVICE_LANGUAGE: &'static str = "DEVICE LANGUAGE";
pub const CLEARED: &'static str = "CLEARED";
pub const NOT_SET: &'static str = "NOT SET";
pub const BUILT_IN: &'static str = "BUILT IN";
pub const NOT_FOUND: &'static str = "NOT FOUND";
pub const SIGNED_IN: &'static str = "SIGNED IN";
pub const SIGNED_OUT: &'static str = "SIGNED OUT";
pub const CONNECTING: &'static str = "CONNECTING";
pub const SIGNING_OUT: &'static str = "SIGNING OUT";
pub const NOT_CONFIGURED: &'static str = "NOT CONFIGURED";
pub const TDLIB_NOT_FOUND: &'static str = "TDLIB NOT FOUND";
pub const RESTART_TO_APPLY: &'static str = "RESTART FLOX TO APPLY";
pub const API_ID_NOT_A_NUMBER: &'static str = "THE API ID IS A WHOLE NUMBER";

/// One settings row.
#[derive(Clone, Copy, Debug, PartialEq, Eq, Hash, Structural)]
pub enum RowId {
    Quality,
    AudioLanguage,
    Subtitles,
    SubtitleLanguage,
    SubtitleSize,
    Speed,
    Aspect,
    Autoplay,
    SeekStep,
    Resume,
    Finished,
    Loudness,
    LoudnessGain,
    OverlayHide,
    UiScale,
    Sort,
    Channel,
    ContinueLimit,
    ClearHistory,
    TmdbKey,
    TelegramApiId,
    TelegramApiHash,
    Account,
    FfmpegPath,
    YtDlpPath,
    Version,
}

/// Every row in screen order (PLAYBACK, AUDIO, INTERFACE, LIBRARY, ACCOUNT, TOOLS, ABOUT);
/// a row's position is its focus index.
pub open spec fn row_ids_spec() -> Seq<RowId> {
    seq![
        RowId::Quality, RowId::AudioLanguage, RowId::Subtitles, RowId::SubtitleLanguage,
        RowId::SubtitleSize, RowId::Speed, RowId::Aspect, RowId::Autoplay, RowId::SeekStep,
        RowId::Resume, RowId::Finished, RowId::Loudness, RowId::LoudnessGain, RowId::OverlayHide,
        RowId::UiScale, RowId::Sort, RowId::Channel, RowId::ContinueLimit, RowId::ClearHistory,
        RowId::TmdbKey, RowId::TelegramApiId, RowId::TelegramApiHash, RowId::Account,
        RowId::FfmpegPath, RowId::YtDlpPath, RowId::Version,
    ]
}

/// The section headings and how many rows each holds, in screen order.
pub open spec fn sections_spec() -> Seq<(Seq<char>, nat)> {
    seq![("PLAYBACK"@, 11), ("AUDIO"@, 2), ("INTERFACE"@, 2), ("LIBRARY"@, 4), ("ACCOUNT"@, 4), ("TOOLS"@, 2), ("ABOUT"@, 1)]
}

/// Every row in screen order; a row's position is its focus index.
pub fn row_ids() -> (r: Vec<RowId>)
    ensures
        r@ == row_ids_spec(),
{
    let r = vec![
        RowId::Quality, RowId::AudioLanguage, RowId::Subtitles, RowId::SubtitleLanguage,
        RowId::SubtitleSize, RowId::Speed, RowId::Aspect, RowId::Autoplay, RowId::SeekStep,
        RowId::Resume, RowId::Finished, RowId::Loudness, RowId::LoudnessGain, RowId::OverlayHide,
        RowId::UiScale, RowId::Sort, RowId::Channel, RowId::ContinueLimit, RowId::ClearHistory,
        RowId::TmdbKey, RowId::TelegramApiId, RowId::TelegramApiHash, RowId::Account,
        RowId::FfmpegPath, RowId::YtDlpPath, RowId::Version,
    ];
    assert(r@ =~= row_ids_spec());
    r
}

/// The section headings, each with its number of rows, in screen order.
pub fn sections() -> (r: Vec<(&'static str, usize)>)
    ensures
        r@.len() == sections_spec().len(),
        forall|i: int| 0 <= i < r@.len() ==> (#[trigger] r@[i]).0@ == sections_spec()[i].0 && r@[i].1 == sections_spec()[i].1,
{
    vec![("PLAYBACK", 11), ("AUDIO", 2), ("INTERFACE", 2), ("LIBRARY", 4), ("ACCOUNT", 4), ("TOOLS", 2), ("ABOUT", 1)]
}

/// The row counts of the sections add up to the rows.
pub proof fn law_sections_cover_the_rows()
    ensures
        sections_spec()[0].1 + sections_spec()[1].1 + sections_spec()[2].1 + sections_spec()[3].1
            + sections_spec()[4].1 + sections_spec()[5].1 + sections_spec()[6].1 == row_ids_spec().len(),
{
}

/// Where ffmpeg and yt-dlp resolve to (override, app folder, then `PATH`).
#[derive(Debug, Default, PartialEq, Eq)]
pub struct ToolPaths {
    pub ffmpeg: Option<String>,
    pub ytdlp: Option<String>,
}

/// The characters before the first `p` (all of them when there is none).
pub open spec fn before_p(s: Seq<char>) -> Seq<char>
    decreases s.len(),
{
    if s.len() == 0 {
        s
    } else if s[0] == 'p' {
        Seq::empty()
    } else {
        seq![s[0]] + before_p(s.drop_first())
    }
}

/// The number before the first `p` (`"2160p DV"` gives 2160), else 0.
pub open spec fn height_spec(quality: Seq<char>) -> u32 {
    match parse_u32_spec(trimmed(before_p(quality))) {
        Some(n) => n,
        None => 0,
    }
}

/// The number before the first `p` (`"2160p DV"` gives 2160), else 0.
pub fn height(quality: &str) -> (h: u32)
    ensures
        h == height_spec(quality@),
{
    let cs = crate::text::chars_of(quality);
    let mut head: Vec<char> = Vec::new();
    let mut i: usize = 0;
    assert(cs@.skip(0) =~= cs@);
    assert(head@ + before_p(cs@) =~= before_p(cs@));
    while i < cs.len() && cs[i] != 'p'
        invariant
            i <= cs@.len(),
            head@ == cs@.take(i as int),
            before_p(cs@) == head@ + before_p(cs@.skip(i as int)),
        decreases cs@.len() - i,
    {
        assert(cs@.skip(i as int).drop_first() =~= cs@.skip(i + 1));
        assert(cs@.skip(i as int)[0] == cs@[i as int]);
        head.push(cs[i]);
        i = i + 1;
        assert(head@ =~= cs@.take(i as int));
    }
    if i < cs.len() {
        assert(cs@.skip(i as int)[0] == 'p');
    } else {
        assert(cs@.skip(i as int) =~= Seq::<char>::empty());
    }
    assert(before_p(cs@) =~= head@);
    let hs = string_of(&head);
    let t = trim_str(hs.as_str());
    match parse_u32_chars(&t) {
        Some(n) => n,
        None => 0,
    }
}

/// The distinct qualities of `qs`, trimmed, the empty ones left out, first occurrences first.
pub open spec fn distinct_trimmed(qs: Seq<Seq<char>>) -> Seq<Seq<char>>
    decreases qs.len(),
{
    if qs.len() == 0 {
        Seq::empty()
    } else {
        let d = distinct_trimmed(qs.drop_last());
        let t = trimmed(qs.last());
        if t.len() == 0 || d.contains(t) { d } else { d.push(t) }
    }
}

/// `x` placed after every quality at least as tall as it: one step of a stable
/// tallest-first sort.
pub open spec fn insert_by_height(s: Seq<Seq<char>>, x: Seq<char>) -> Seq<Seq<char>>
    decreases s.len(),
{
    if s.len() == 0 {
        seq![x]
    } else if height_spec(s.last()) >= height_spec(x) {
        s.push(x)
    } else {
        insert_by_height(s.drop_last(), x).push(s.last())
    }
}

/// The qualities tallest first; equally tall ones keep their order.
pub open spec fn tallest_first(s: Seq<Seq<char>>) -> Seq<Seq<char>>
    decreases s.len(),
{
    if s.len() == 0 { Seq::empty() } else { insert_by_height(tallest_first(s.drop_last()), s.last()) }
}

/// Qualities ordered tallest first.
pub open spec fn by_height(s: Seq<Seq<char>>) -> bool {
    forall|i: int, j: int| 0 <= i < j < s.len() ==> height_spec(#[trigger] s[i]) >= height_spec(#[trigger] s[j])
}

proof fn lemma_insert_by_height(s: Seq<Seq<char>>, x: Seq<char>)
    requires
        by_height(s),
    ensures
        by_height(insert_by_height(s, x)),
        insert_by_height(s, x).len() == s.len() + 1,
        insert_by_height(s, x).to_multiset() == s.to_multiset().insert(x),
    decreases s.len(),
{
    if s.len() == 0 {
        assert(s =~= Seq::<Seq<char>>::empty());
        assert(seq![x].to_multiset() =~= Seq::<Seq<char>>::empty().to_multiset().insert(x)) by {
            broadcast use vstd::seq_lib::group_seq_properties;
        }
    } else if height_spec(s.last()) >= height_spec(x) {
        broadcast use vstd::seq_lib::group_seq_properties;
        assert(s.push(x).to_multiset() == s.to_multiset().insert(x));
        assert forall|i: int, j: int| 0 <= i < j < s.push(x).len() implies height_spec(#[trigger] s.push(x)[i]) >= height_spec(#[trigger] s.push(x)[j]) by {
            if j == s.len() {
                assert(height_spec(s[i]) >= height_spec(s[s.len() - 1]));
            } else {
                assert(s.push(x)[i] == s[i] && s.push(x)[j] == s[j]);
            }
        }
    } else {
        let s2 = s.drop_last();
        assert forall|i: int, j: int| 0 <= i < j < s2.len() implies height_spec(#[trigger] s2[i]) >= height_spec(#[trigger] s2[j]) by {
            assert(s2[i] == s[i] && s2[j] == s[j]);
        }
        lemma_insert_by_height(s2, x);
        let r2 = insert_by_height(s2, x);
        let r = r2.push(s.last());
        assert forall|i: int, j: int| 0 <= i < j < r.len() implies height_spec(#[trigger] r[i]) >= height_spec(#[trigger] r[j]) by {
            if j == r.len() - 1 {
                let e = r2[i];
                assert(r2.to_multiset().count(e) > 0) by {
                    broadcast use vstd::seq_lib::group_seq_properties;
                    assert(r2.contains(e));
                }
                assert(s2.to_multiset().insert(x).count(e) > 0);
                if e != x {
                    assert(s2.to_multiset().count(e) > 0);
                    broadcast use vstd::seq_lib::group_seq_properties;
                    assert(s2.contains(e));
                    let k = choose|k: int| 0 <= k < s2.len() && s2[k] == e;
                    assert(s[k] == e);
                }
            } else {
                assert(r[i] == r2[i] && r[j] == r2[j]);
            }
        }
        broadcast use vstd::seq_lib::group_seq_properties;
        assert(s2.push(s.last()) =~= s);
        assert(r.to_multiset() == r2.to_multiset().insert(s.last()));
        assert(s.to_multiset() == s2.to_multiset().insert(s.last()));
        assert(r.to_multiset() =~= s.to_multiset().insert(x));
    }
}

/// The choices are ordered tallest first and hold each merged quality once each: the stable
/// sort loses and adds nothing.
pub proof fn law_tallest_first_sorts(s: Seq<Seq<char>>)
    ensures
        by_height(tallest_first(s)),
        tallest_first(s).to_multiset() == s.to_multiset(),
    decreases s.len(),
{
    broadcast use vstd::seq_lib::group_seq_properties;
    if s.len() > 0 {
        law_tallest_first_sorts(s.drop_last());
        lemma_insert_by_height(tallest_first(s.drop_last()), s.last());
        assert(s.drop_last().push(s.last()) =~= s);
    }
}

/// The Default quality choices: HIGHEST (`None`), then the common qualities merged with the
/// library's, tallest first, then the saved quality when it is in neither.
pub open spec fn quality_choices(common: Seq<Seq<char>>, library: Seq<Seq<char>>, current: Option<Seq<char>>) -> Seq<Option<Seq<char>>> {
    let known = tallest_first(distinct_trimmed(common + library));
    let all = match current {
        Some(c) => if known.contains(c) { known } else { known.push(c) },
        None => known,
    };
    seq![None::<Seq<char>>] + all.map_values(|q: Seq<char>| Some(q))
}

/// The characters of some strings.
pub open spec fn texts(v: Seq<String>) -> Seq<Seq<char>> {
    v.map_values(|q: String| q@)
}

/// Adds the trimmed `q` unless it is empty or listed.
fn add_distinct(known: &mut Vec<String>, q: &str)
    ensures
        ({
            let d = texts(old(known)@);
            let t = trimmed(q@);
            texts(final(known)@) == if t.len() == 0 || d.contains(t) { d } else { d.push(t) }
        }),
{
    let t = trim_str(q);
    let ts = string_of(&t);
    if t.len() == 0 {
        return;
    }
    let ghost d = texts(known@);
    let mut i: usize = 0;
    while i < known.len()
        invariant
            i <= known@.len(),
            d == texts(known@),
            ts@ == trimmed(q@),
            forall|k: int| 0 <= k < i ==> known@[k]@ != ts@,
        decreases known@.len() - i,
    {
        if same_text(known[i].as_str(), ts.as_str()) {
            assert(d[i as int] == ts@);
            return;
        }
        i = i + 1;
    }
    assert(!d.contains(ts@)) by {
        if d.contains(ts@) {
            let k = choose|k: int| 0 <= k < d.len() && d[k] == ts@;
            assert(known@[k]@ == ts@);
        }
    }
    known.push(ts);
    assert(texts(known@) =~= d.push(trimmed(q@)));
}

/// Where `insert_by_height` puts `x`: after the last quality at least as tall.
proof fn lemma_insert_at(s: Seq<Seq<char>>, x: Seq<char>, p: int)
    requires
        0 <= p <= s.len(),
        forall|k: int| p <= k < s.len() ==> height_spec(#[trigger] s[k]) < height_spec(x),
        p > 0 ==> height_spec(s[p - 1]) >= height_spec(x),
    ensures
        insert_by_height(s, x) == s.insert(p, x),
    decreases s.len(),
{
    if s.len() == 0 {
        assert(s.insert(p, x) =~= seq![x]);
    } else if p == s.len() {
        assert(s.insert(p, x) =~= s.push(x));
    } else {
        let s2 = s.drop_last();
        assert forall|k: int| p <= k < s2.len() implies height_spec(#[trigger] s2[k]) < height_spec(x) by {
            assert(s2[k] == s[k]);
        }
        if p > 0 {
            assert(s2[p - 1] == s[p - 1]);
        }
        assert(height_spec(s[s.len() - 1]) < height_spec(x));
        lemma_insert_at(s2, x, p);
        assert(s2.insert(p, x).push(s.last()) =~= s.insert(p, x));
    }
}

/// The Default quality choices: HIGHEST (`None`), then `common` (the common qualities of the
/// settings tables) merged with the library's, trimmed and each once, tallest first (a
/// stable sort, so `2160p` stays before `2160p DV`), then the saved quality when it is in
/// neither.
pub fn qualities(common: &Vec<String>, library: &Vec<String>, current: Option<&str>) -> (r: Vec<Option<String>>)
    ensures
        r@.map_values(|o: Option<String>| match o { Some(q) => Some(q@), None => None }) == quality_choices(
            texts(common@),
            texts(library@),
            match current { Some(c) => Some(c@), None => None },
        ),
{
    let ghost all = texts(common@) + texts(library@);
    let mut known: Vec<String> = Vec::new();
    let mut i: usize = 0;
    while i < common.len()
        invariant
            i <= common@.len(),
            all == texts(common@) + texts(library@),
            texts(known@) == distinct_trimmed(all.take(i as int)),
        decreases common@.len() - i,
    {
        proof {
            assert(all.take(i + 1).drop_last() =~= all.take(i as int));
            assert(all.take(i + 1).last() == common@[i as int]@);
        }
        add_distinct(&mut known, common[i].as_str());
        i = i + 1;
    }
    let mut j: usize = 0;
    while j < library.len()
        invariant
            j <= library@.len(),
            all == texts(common@) + texts(library@),
            texts(known@) == distinct_trimmed(all.take(common@.len() + j)),
        decreases library@.len() - j,
    {
        proof {
            let n = common@.len() + j;
            assert(all.take(n + 1).drop_last() =~= all.take(n as int));
            assert(all.take(n + 1).last() == library@[j as int]@);
        }
        add_distinct(&mut known, library[j].as_str());
        j = j + 1;
    }
    assert(all.take((common@.len() + library@.len()) as int) =~= all);
    let ghost kd = texts(known@);
    let mut sorted: Vec<String> = Vec::new();
    let mut heights: Vec<u32> = Vec::new();
    let mut rest = known;
    let mut m: usize = 0;
    let total = rest.len();
    while rest.len() > 0
        invariant
            m + rest@.len() == kd.len(),
            total == kd.len(),
            texts(rest@) == kd.subrange(m as int, kd.len() as int),
            texts(sorted@) == tallest_first(kd.take(m as int)),
            heights@.len() == sorted@.len(),
            forall|k: int| 0 <= k < heights@.len() ==> heights@[k] == height_spec(#[trigger] sorted@[k]@),
        decreases rest@.len(),
    {
        let ghost r0 = rest@;
        let x = rest.remove(0);
        proof {
            assert(texts(r0)[0] == r0[0]@);
            assert(x@ == kd[m as int]);
            assert(kd.take(m + 1).drop_last() =~= kd.take(m as int));
        }
        let hx = height(x.as_str());
        let ghost sv = texts(sorted@);
        let mut p: usize = sorted.len();
        while p > 0 && heights[p - 1] < hx
            invariant
                p <= sorted@.len(),
                heights@.len() == sorted@.len(),
                forall|k: int| 0 <= k < heights@.len() ==> heights@[k] == height_spec(#[trigger] sorted@[k]@),
                sv == texts(sorted@),
                hx == height_spec(x@),
                forall|k: int| p <= k < sv.len() ==> height_spec(#[trigger] sv[k]) < height_spec(x@),
            decreases p,
        {
            assert(sv[p - 1] == sorted@[p - 1]@);
            p = p - 1;
        }
        proof {
            if p > 0 {
                assert(sv[p - 1] == sorted@[p - 1]@);
            }
            lemma_insert_at(sv, x@, p as int);
        }
        let ghost xv = x@;
        let ghost hv = heights@;
        let ghost so = sorted@;
        sorted.insert(p, x);
        heights.insert(p, hx);
        proof {
            assert(texts(sorted@) =~= sv.insert(p as int, xv));
            assert forall|k: int| 0 <= k < heights@.len() implies heights@[k] == height_spec(#[trigger] sorted@[k]@) by {
                if k < p {
                    assert(heights@[k] == hv[k] && sorted@[k] == so[k]);
                } else if k > p {
                    assert(heights@[k] == hv[k - 1] && sorted@[k] == so[k - 1]);
                } else {
                    assert(heights@[k] == hx && sorted@[k]@ == xv);
                }
            }
        }
        m = m + 1;
        proof {
            assert(rest@ =~= r0.subrange(1, r0.len() as int));
            assert forall|i: int| 0 <= i < rest@.len() implies texts(rest@)[i] == kd[m + i] by {
                assert(texts(r0)[i + 1] == r0[i + 1]@);
            }
            assert(texts(rest@) =~= kd.subrange(m as int, kd.len() as int));
        }
    }
    assert(kd.take(kd.len() as int) =~= kd);
    let ghost known_v = texts(sorted@);
    let mut out: Vec<Option<String>> = Vec::new();
    out.push(None);
    let mut add_current = false;
    match current {
        Some(c) => {
            let mut found = false;
            let mut k: usize = 0;
            while k < sorted.len()
                invariant
                    k <= sorted@.len(),
                    known_v == texts(sorted@),
                    found == exists|i: int| 0 <= i < k && known_v[i] == c@,
                decreases sorted@.len() - k,
            {
                let same = same_text(sorted[k].as_str(), c);
                proof {
                    assert(known_v[k as int] == sorted@[k as int]@);
                }
                if same {
                    found = true;
                }
                k = k + 1;
            }
            add_current = !found;
        },
        None => {},
    }
    let ghost expect = quality_choices(texts(common@), texts(library@), match current { Some(c) => Some(c@), None => None });
    let mut q: usize = 0;
    let n = sorted.len();
    let mut items = sorted;
    while items.len() > 0
        invariant
            q + items@.len() == n,
            n == known_v.len(),
            texts(items@) == known_v.subrange(q as int, n as int),
            out@.map_values(|o: Option<String>| match o { Some(s) => Some(s@), None => None })
                == seq![None::<Seq<char>>] + known_v.take(q as int).map_values(|s: Seq<char>| Some(s)),
        decreases items@.len(),
    {
        let ghost i0 = items@;
        let item = items.remove(0);
        let ghost prev = out@;
        out.push(Some(item));
        proof {
            assert(texts(i0)[0] == i0[0]@);
            assert(item@ == known_v[q as int]);
            assert(out@ =~= prev.push(Some(item)));
            assert(prev.push(Some(item)).map_values(|o: Option<String>| match o { Some(s) => Some(s@), None => None })
                =~= prev.map_values(|o: Option<String>| match o { Some(s) => Some(s@), None => None }).push(Some(known_v[q as int])));
            assert(known_v.take(q + 1).map_values(|s: Seq<char>| Some(s))
                =~= known_v.take(q as int).map_values(|s: Seq<char>| Some(s)).push(Some(known_v[q as int])));
            assert(known_v.take(q + 1) =~= known_v.take(q as int).push(known_v[q as int]));
            assert(out@.map_values(|o: Option<String>| match o { Some(s) => Some(s@), None => None })
                =~= seq![None::<Seq<char>>] + known_v.take(q + 1).map_values(|s: Seq<char>| Some(s)));
        }
        q = q + 1;
        proof {
            assert(items@ =~= i0.subrange(1, i0.len() as int));
            assert forall|i: int| 0 <= i < items@.len() implies texts(items@)[i] == known_v[q + i] by {
                assert(texts(i0)[i + 1] == i0[i + 1]@);
            }
            assert(texts(items@) =~= known_v.subrange(q as int, n as int));
        }
    }
    assert(known_v.take(n as int) =~= known_v);
    let ghost before = out@;
    if add_current {
        match current {
            Some(c) => {
                out.push(Some(crate::text::owned(c)));
                proof {
                    assert(!known_v.contains(c@));
                    assert(out@.map_values(|o: Option<String>| match o { Some(s) => Some(s@), None => None })
                        =~= before.map_values(|o: Option<String>| match o { Some(s) => Some(s@), None => None }).push(Some(c@)));
                    assert(known_v.push(c@).map_values(|s: Seq<char>| Some(s)) =~= known_v.map_values(|s: Seq<char>| Some(s)).push(Some(c@)));
                }
            },
            None => {},
        }
    } else {
        proof {
            if let Some(c) = current {
                let i = choose|i: int| 0 <= i < known_v.len() && known_v[i] == c@;
                assert(known_v.contains(c@));
            }
        }
    }
    out
}

/// Eight bullets, then the last four characters of a secret of twelve or more (surrounding
/// space ignored), uppercased.
pub open spec fn mask_spec(secret: Seq<char>) -> Seq<char> {
    let t = trimmed(secret);
    upper(seq!['•', '•', '•', '•', '•', '•', '•', '•'] + (if t.len() >= 12 { t.skip(t.len() - 4) } else { Seq::empty() }))
}

/// `••••••••` plus the last four characters of a long secret.
pub fn mask(secret: &str) -> (r: String)
    ensures
        r@ == mask_spec(secret@),
{
    let t = trim_str(secret);
    let mut out: Vec<char> = Vec::new();
    let mut k: usize = 0;
    while k < 8
        invariant
            k <= 8,
            out@ == Seq::new(k as nat, |i: int| '•'),
        decreases 8 - k,
    {
        out.push('•');
        k = k + 1;
        assert(out@ =~= Seq::new(k as nat, |i: int| '•'));
    }
    assert(out@ =~= seq!['•', '•', '•', '•', '•', '•', '•', '•']);
    if t.len() >= 12 {
        let n = t.len();
        let mut j: usize = n - 4;
        while j < n
            invariant
                n == t@.len(),
                n >= 12,
                n - 4 <= j <= n,
                out@ == seq!['•', '•', '•', '•', '•', '•', '•', '•'] + t@.subrange(n - 4, j as int),
            decreases n - j,
        {
            let c = t[j];
            let ghost prev = out@;
            out.push(c);
            assert(t@.subrange(n - 4, j + 1) =~= t@.subrange(n - 4, j as int).push(c));
            j = j + 1;
            assert(out@ =~= seq!['•', '•', '•', '•', '•', '•', '•', '•'] + t@.subrange(n - 4, j as int));
        }
        assert(t@.subrange(n - 4, n as int) =~= t@.skip(n - 4));
    } else {
        assert(out@ =~= seq!['•', '•', '•', '•', '•', '•', '•', '•'] + Seq::<char>::empty());
    }
    let s = string_of(&out);
    to_upper(s.as_str())
}

/// A mask shows nothing of a secret but its last four characters: two short secrets (under
/// twelve characters once trimmed) mask alike, and so do two long ones that end alike.
pub proof fn law_mask_shows_only_the_last_four(a: Seq<char>, b: Seq<char>)
    requires
        ({
            let ta = trimmed(a);
            let tb = trimmed(b);
            (ta.len() < 12 && tb.len() < 12) || (ta.len() >= 12 && tb.len() >= 12 && ta.skip(ta.len() - 4) == tb.skip(tb.len() - 4))
        }),
    ensures
        mask_spec(a) == mask_spec(b),
{
    let ta = trimmed(a);
    let tb = trimmed(b);
    let bullets = seq!['•', '•', '•', '•', '•', '•', '•', '•'];
    let sa = bullets + (if ta.len() >= 12 { ta.skip(ta.len() - 4) } else { Seq::empty() });
    let sb = bullets + (if tb.len() >= 12 { tb.skip(tb.len() - 4) } else { Seq::empty() });
    assert(sa =~= sb);
}

/// A credential's value: masked when secret, uppercased otherwise; unset reads BUILT IN
/// when a built-in one applies, else NOT SET.
pub open spec fn credential_spec(saved: Option<Seq<char>>, built_in: bool, secret: bool) -> Seq<char> {
    match saved {
        Some(v) => if secret { mask_spec(v) } else { upper(v) },
        None => if built_in { "BUILT IN"@ } else { "NOT SET"@ },
    }
}

/// A credential's value as the row shows it.
pub fn credential(saved: Option<String>, built_in: bool, secret: bool) -> (r: String)
    ensures
        r@ == credential_spec(match saved {
            Some(v) => Some(v@),
            None => None,
        }, built_in, secret),
{
    match saved {
        Some(v) => if secret { mask(v.as_str()) } else { to_upper(v.as_str()) },
        None => if built_in { crate::text::owned(BUILT_IN) } else { crate::text::owned(NOT_SET) },
    }
}

/// A tool's value: its resolved path, else NOT FOUND.
pub fn tool_value(path: Option<&String>) -> (r: String)
    ensures
        r@ == match path {
            Some(p) => p@,
            None => "NOT FOUND"@,
        },
{
    match path {
        Some(p) => p.clone(),
        None => crate::text::owned(NOT_FOUND),
    }
}

/// A text setting edited in a dialog.
#[derive(Clone, Copy, Debug, PartialEq, Eq, Hash, Structural)]
pub enum TextField {
    Channel,
    TmdbKey,
    TelegramApiId,
    TelegramApiHash,
    FfmpegPath,
    YtDlpPath,
}

/// What a confirm dialog asks.
#[derive(Clone, Copy, Debug, PartialEq, Eq, Hash, Structural)]
pub enum Confirm {
    ClearHistory,
    SignOut,
}

/// The confirm dialog's title and message.
pub fn confirm_text(c: Confirm) -> (r: (&'static str, &'static str))
    ensures
        match c {
            Confirm::ClearHistory => r.0@ == "Clear watch history"@
                && r.1@ == "Remove every title from continue watching and forget saved positions?"@,
            Confirm::SignOut => r.0@ == "Sign out of Telegram"@
                && r.1@ == "Sign out of Telegram on this device? The library will be hidden until you connect again."@,
        },
{
    match c {
        Confirm::ClearHistory => (
            "Clear watch history",
            "Remove every title from continue watching and forget saved positions?",
        ),
        Confirm::SignOut => (
            "Sign out of Telegram",
            "Sign out of Telegram on this device? The library will be hidden until you connect again.",
        ),
    }
}

/// A text dialog's contents.
#[derive(Debug, PartialEq, Eq)]
pub struct TextEdit {
    pub title: &'static str,
    pub message: String,
    pub text: String,
    pub placeholder: String,
    /// Typed characters are masked.
    pub secret: bool,
}

/// `s` without surrounding whitespace and one pair of quotes around it, trimmed again
/// (Explorer's "Copy as path").
pub open spec fn unquote_spec(s: Seq<char>) -> Seq<char> {
    let t = trimmed(s);
    if t.len() >= 2 && t[0] == '"' && t.last() == '"' {
        trimmed(t.subrange(1, t.len() - 1))
    } else {
        trimmed(t)
    }
}

/// Removes surrounding whitespace and one pair of quotes.
pub fn unquote(text: &str) -> (r: String)
    ensures
        r@ == unquote_spec(text@),
{
    let t = trim_str(text);
    if t.len() >= 2 && t[0] == '"' && t[t.len() - 1] == '"' {
        let mut inner: Vec<char> = Vec::new();
        let mut i: usize = 1;
        while i < t.len() - 1
            invariant
                1 <= i <= t@.len() - 1,
                inner@ == t@.subrange(1, i as int),
            decreases t@.len() - 1 - i,
        {
            inner.push(t[i]);
            i = i + 1;
            assert(inner@ =~= t@.subrange(1, i as int));
        }
        let r = crate::text::trim_chars(&inner);
        string_of(&r)
    } else {
        let r = crate::text::trim_chars(&t);
        string_of(&r)
    }
}

/// The trimmed text, or `None` when nothing is left.
pub fn opt(text: &str) -> (r: Option<String>)
    ensures
        match r {
            Some(v) => v@ == trimmed(text@) && trimmed(text@).len() > 0,
            None => trimmed(text@).len() == 0,
        },
{
    let t = trim_str(text);
    if t.len() > 0 {
        Some(string_of(&t))
    } else {
        None
    }
}

/// A text as the setting stores it: trimmed, or nothing when nothing is left.
pub open spec fn opt_spec(text: Seq<char>) -> Option<Seq<char>> {
    if trimmed(text).len() > 0 { Some(trimmed(text)) } else { None }
}

/// An optional text setting as plain characters.
pub open spec fn text_of(o: Option<String>) -> Option<Seq<char>> {
    match o {
        Some(v) => Some(v@),
        None => None,
    }
}

/// The text settings the dialogs edit.
#[derive(Debug, Default, PartialEq, Eq)]
pub struct TextSettings {
    pub telegram_channel: String,
    pub tmdb_api_key: Option<String>,
    pub telegram_api_id: Option<i32>,
    pub telegram_api_hash: Option<String>,
    pub ffmpeg_path: Option<String>,
    pub ytdlp_path: Option<String>,
}

/// What typing `text` into the Telegram API id dialog stores: nothing when it is blank, a
/// positive `i32` it reads as, else the error.
pub open spec fn api_id_spec(text: Seq<char>) -> Result<Option<i32>, ()> {
    match opt_spec(text) {
        None => Ok(None),
        Some(t) => match parse_u32_spec(t) {
            Some(v) => if 1 <= v && v <= i32::MAX { Ok(Some(v as i32)) } else { Err(()) },
            None => Err(()),
        },
    }
}

/// Stores what was typed into `field`'s dialog. An empty value clears the setting (the
/// channel then reads empty); a Telegram API id that is not a positive whole number is
/// refused with THE API ID IS A WHOLE NUMBER and changes nothing. Paths lose surrounding
/// space and one pair of quotes.
pub fn apply_text(field: TextField, s: &mut TextSettings, text: &str) -> (r: Result<(), &'static str>)
    ensures
        field == TextField::TelegramApiId && api_id_spec(text@) is Err ==> r == Err::<(), &'static str>(API_ID_NOT_A_NUMBER) && *final(s) == *old(s),
        !(field == TextField::TelegramApiId && api_id_spec(text@) is Err) ==> r is Ok,
        field != TextField::Channel ==> final(s).telegram_channel == old(s).telegram_channel,
        field != TextField::TmdbKey ==> final(s).tmdb_api_key == old(s).tmdb_api_key,
        field != TextField::TelegramApiId ==> final(s).telegram_api_id == old(s).telegram_api_id,
        field != TextField::TelegramApiHash ==> final(s).telegram_api_hash == old(s).telegram_api_hash,
        field != TextField::FfmpegPath ==> final(s).ffmpeg_path == old(s).ffmpeg_path,
        field != TextField::YtDlpPath ==> final(s).ytdlp_path == old(s).ytdlp_path,
        field == TextField::Channel ==> final(s).telegram_channel@ == trimmed(text@),
        field == TextField::TmdbKey ==> text_of(final(s).tmdb_api_key) == opt_spec(text@),
        field == TextField::TelegramApiId && api_id_spec(text@) is Ok ==> Ok::<Option<i32>, ()>(final(s).telegram_api_id) == api_id_spec(text@),
        field == TextField::TelegramApiHash ==> text_of(final(s).telegram_api_hash) == opt_spec(text@),
        field == TextField::FfmpegPath ==> text_of(final(s).ffmpeg_path) == opt_spec(unquote_spec(text@)),
        field == TextField::YtDlpPath ==> text_of(final(s).ytdlp_path) == opt_spec(unquote_spec(text@)),
{
    match field {
        TextField::Channel => {
            let t = trim_str(text);
            s.telegram_channel = string_of(&t);
        },
        TextField::TmdbKey => s.tmdb_api_key = opt(text),
        TextField::TelegramApiId => {
            let t = trim_str(text);
            if t.len() == 0 {
                s.telegram_api_id = None;
            } else {
                match parse_u32_chars(&t) {
                    Some(v) => {
                        if 1 <= v && v <= 0x7fff_ffff {
                            s.telegram_api_id = Some(v as i32);
                        } else {
                            return Err(API_ID_NOT_A_NUMBER);
                        }
                    },
                    None => {
                        return Err(API_ID_NOT_A_NUMBER);
                    },
                }
            }
        },
        TextField::TelegramApiHash => s.telegram_api_hash = opt(text),
        TextField::FfmpegPath => {
            let u = unquote(text);
            s.ffmpeg_path = opt(u.as_str());
        },
        TextField::YtDlpPath => {
            let u = unquote(text);
            s.ytdlp_path = opt(u.as_str());
        },
    }
    Ok(())
}

/// The screen's zones.
pub fn zones(rows: usize) -> (z: Vec<Zone>)
    ensures
        z@ == seq![Zone { id: ZoneId(LIST), layout: Layout::List, items: rows, text: false, preferred: 0 }],
{
    vec![Zone::list(ZoneId(LIST), rows)]
}

/// A single-choice dialog: the options (entered at the current one), then CANCEL.
pub fn choice_zones(options: usize, current: usize) -> (z: Vec<Zone>)
    ensures
        z@ == seq![
            Zone { id: ZoneId(OPTIONS), layout: Layout::List, items: options, text: false, preferred: current },
            Zone { id: ZoneId(BUTTONS), layout: Layout::Row, items: 1, text: false, preferred: 0 },
        ],
{
    vec![Zone::list(ZoneId(OPTIONS), options).prefer(current), Zone::row(ZoneId(BUTTONS), 1)]
}

/// A text dialog: the field, then CANCEL and OK (entered at OK).
pub fn text_zones() -> (z: Vec<Zone>)
    ensures
        z@ == seq![
            Zone { id: ZoneId(FIELD), layout: Layout::Row, items: 1, text: true, preferred: 0 },
            Zone { id: ZoneId(BUTTONS), layout: Layout::Row, items: 2, text: false, preferred: OK },
        ],
{
    vec![Zone::row(ZoneId(FIELD), 1).text(), Zone::row(ZoneId(BUTTONS), 2).prefer(OK)]
}

/// A confirm dialog: CANCEL and OK, entered at CANCEL since both confirms are destructive.
pub fn confirm_zones() -> (z: Vec<Zone>)
    ensures
        z@ == seq![Zone { id: ZoneId(BUTTONS), layout: Layout::Row, items: 2, text: false, preferred: CANCEL }],
{
    vec![Zone::row(ZoneId(BUTTONS), 2).prefer(CANCEL)]
}

/// What the settings rows read besides the settings themselves.
#[derive(Debug, PartialEq, Eq)]
pub struct Context {
    pub status: TelegramStatus,
    /// Every quality uploaded to the library (`"2160p DV"`), in any order.
    pub library_qualities: Vec<String>,
    pub tools: ToolPaths,
    /// CLEAR WATCH HISTORY ran while the screen was open.
    pub history_cleared: bool,
    /// Telegram credentials changed and the running client still uses the old ones.
    pub restart_pending: bool,
    pub version: String,
}

/// The ACCOUNT row's value: RESTART FLOX TO APPLY while new credentials wait for a restart,
/// else where Telegram stands.
pub open spec fn account_value_spec(restart_pending: bool, status: TelegramStatus) -> Seq<char> {
    if restart_pending {
        "RESTART FLOX TO APPLY"@
    } else {
        match status {
            TelegramStatus::NotConfigured => "NOT CONFIGURED"@,
            TelegramStatus::Unavailable => "TDLIB NOT FOUND"@,
            TelegramStatus::Auth(AuthState::Ready { .. }) => "SIGNED IN"@,
            TelegramStatus::Auth(AuthState::Idle) | TelegramStatus::Auth(AuthState::Connecting) => "CONNECTING"@,
            TelegramStatus::Auth(AuthState::LoggingOut) => "SIGNING OUT"@,
            TelegramStatus::Auth(_) => "SIGNED OUT"@,
        }
    }
}

/// The ACCOUNT row's value.
pub fn account_value(ctx: &Context) -> (r: &'static str)
    ensures
        r@ == account_value_spec(ctx.restart_pending, ctx.status),
{
    if ctx.restart_pending {
        return RESTART_TO_APPLY;
    }
    match &ctx.status {
        TelegramStatus::NotConfigured => NOT_CONFIGURED,
        TelegramStatus::Unavailable => TDLIB_NOT_FOUND,
        TelegramStatus::Auth(AuthState::Ready { .. }) => SIGNED_IN,
        TelegramStatus::Auth(AuthState::Idle) | TelegramStatus::Auth(AuthState::Connecting) => CONNECTING,
        TelegramStatus::Auth(AuthState::LoggingOut) => SIGNING_OUT,
        TelegramStatus::Auth(_) => SIGNED_OUT,
    }
}

/// A row's label; the ACCOUNT row reads as what CENTER does there.
pub open spec fn label_spec(id: RowId, signed_in: bool) -> Seq<char> {
    match id {
        RowId::Account => if signed_in { "Sign out of Telegram"@ } else { "Sign in to Telegram"@ },
        RowId::Quality => "Default quality"@,
        RowId::AudioLanguage => "Preferred audio language"@,
        RowId::Subtitles => "Subtitles by default"@,
        RowId::SubtitleLanguage => "Subtitle language"@,
        RowId::SubtitleSize => "Subtitle size"@,
        RowId::Speed => "Playback speed"@,
        RowId::Aspect => "Aspect mode"@,
        RowId::Autoplay => "Autoplay next episode"@,
        RowId::SeekStep => "Seek step"@,
        RowId::Resume => "Resume mode"@,
        RowId::Finished => "Mark finished at"@,
        RowId::Loudness => "Loudness boost"@,
        RowId::LoudnessGain => "Loudness gain"@,
        RowId::OverlayHide => "Hide player controls after"@,
        RowId::UiScale => "UI scale"@,
        RowId::Sort => "Sort order"@,
        RowId::Channel => "Telegram channel"@,
        RowId::ContinueLimit => "Continue watching limit"@,
        RowId::ClearHistory => "Clear watch history"@,
        RowId::TmdbKey => "TMDB API key"@,
        RowId::TelegramApiId => "Telegram API id"@,
        RowId::TelegramApiHash => "Telegram API hash"@,
        RowId::FfmpegPath => "FFmpeg path"@,
        RowId::YtDlpPath => "yt-dlp path"@,
        RowId::Version => "Version"@,
    }
}

/// A row's label; the ACCOUNT row offers to sign out when Telegram is signed in, else to
/// sign in.
pub fn label(id: RowId, ctx: &Context) -> (r: &'static str)
    ensures
        r@ == label_spec(id, ctx.status matches TelegramStatus::Auth(AuthState::Ready { .. })),
{
    match id {
        RowId::Account => if ctx.status.ready() { "Sign out of Telegram" } else { "Sign in to Telegram" },
        RowId::Quality => "Default quality",
        RowId::AudioLanguage => "Preferred audio language",
        RowId::Subtitles => "Subtitles by default",
        RowId::SubtitleLanguage => "Subtitle language",
        RowId::SubtitleSize => "Subtitle size",
        RowId::Speed => "Playback speed",
        RowId::Aspect => "Aspect mode",
        RowId::Autoplay => "Autoplay next episode",
        RowId::SeekStep => "Seek step",
        RowId::Resume => "Resume mode",
        RowId::Finished => "Mark finished at",
        RowId::Loudness => "Loudness boost",
        RowId::LoudnessGain => "Loudness gain",
        RowId::OverlayHide => "Hide player controls after",
        RowId::UiScale => "UI scale",
        RowId::Sort => "Sort order",
        RowId::Channel => "Telegram channel",
        RowId::ContinueLimit => "Continue watching limit",
        RowId::ClearHistory => "Clear watch history",
        RowId::TmdbKey => "TMDB API key",
        RowId::TelegramApiId => "Telegram API id",
        RowId::TelegramApiHash => "Telegram API hash",
        RowId::FfmpegPath => "FFmpeg path",
        RowId::YtDlpPath => "yt-dlp path",
        RowId::Version => "Version",
    }
}

/// The on/off settings that the toggle rows flip.
#[derive(Clone, Copy, Debug, Default, PartialEq, Eq, Structural)]
pub struct Toggles {
    pub subtitles_enabled: bool,
    pub autoplay_next: bool,
    pub loudness_boost: bool,
}

/// SUBTITLES, AUTOPLAY and LOUDNESS are on/off rows.
pub open spec fn is_toggle_row(id: RowId) -> bool {
    id == RowId::Subtitles || id == RowId::Autoplay || id == RowId::Loudness
}

/// The settings after flipping row `id`: its own value changes, nothing else does.
pub open spec fn toggled(id: RowId, t: Toggles) -> Toggles {
    match id {
        RowId::Subtitles => Toggles { subtitles_enabled: !t.subtitles_enabled, ..t },
        RowId::Autoplay => Toggles { autoplay_next: !t.autoplay_next, ..t },
        RowId::Loudness => Toggles { loudness_boost: !t.loudness_boost, ..t },
        _ => t,
    }
}

/// Flips a toggle row. False, with nothing changed, for other rows.
pub fn toggle(id: RowId, s: &mut Toggles) -> (r: bool)
    ensures
        r == is_toggle_row(id),
        *final(s) == toggled(id, *old(s)),
{
    match id {
        RowId::Subtitles => s.subtitles_enabled = !s.subtitles_enabled,
        RowId::Autoplay => s.autoplay_next = !s.autoplay_next,
        RowId::Loudness => s.loudness_boost = !s.loudness_boost,
        _ => return false,
    }
    true
}

/// What CENTER on a row does.
#[derive(Clone, Copy, Debug, PartialEq, Eq, Structural)]
pub enum RowAction {
    /// Flip the on/off row.
    Toggle,
    /// Open the single-choice dialog on the row's options.
    Choose,
    /// Open the text dialog.
    Edit(TextField),
    Confirm(Confirm),
    Open(Route),
    Nothing,
}

/// CENTER on row `id`, whose choice dialog would offer `choices` options: a toggle flips,
/// a row with options opens them, a text row opens its editor, CLEAR WATCH HISTORY asks
/// first, the ACCOUNT row asks before signing out or opens the sign-in screen.
pub open spec fn action_spec(id: RowId, choices: nat, ready: bool) -> RowAction {
    if is_toggle_row(id) {
        RowAction::Toggle
    } else if choices > 0 {
        RowAction::Choose
    } else {
        match id {
            RowId::Channel => RowAction::Edit(TextField::Channel),
            RowId::TmdbKey => RowAction::Edit(TextField::TmdbKey),
            RowId::TelegramApiId => RowAction::Edit(TextField::TelegramApiId),
            RowId::TelegramApiHash => RowAction::Edit(TextField::TelegramApiHash),
            RowId::FfmpegPath => RowAction::Edit(TextField::FfmpegPath),
            RowId::YtDlpPath => RowAction::Edit(TextField::YtDlpPath),
            RowId::ClearHistory => RowAction::Confirm(Confirm::ClearHistory),
            RowId::Account => if ready { RowAction::Confirm(Confirm::SignOut) } else { RowAction::Open(Route::Login) },
            _ => RowAction::Nothing,
        }
    }
}

/// CENTER on row `id`; `choices` is how many options the row's choice dialog offers
/// (none for rows that are not choices).
pub fn action(id: RowId, choices: usize, ctx: &Context) -> (a: RowAction)
    ensures
        a == action_spec(id, choices as nat, ctx.status matches TelegramStatus::Auth(AuthState::Ready { .. })),
{
    if id == RowId::Subtitles || id == RowId::Autoplay || id == RowId::Loudness {
        return RowAction::Toggle;
    }
    if choices > 0 {
        return RowAction::Choose;
    }
    match id {
        RowId::Channel => RowAction::Edit(TextField::Channel),
        RowId::TmdbKey => RowAction::Edit(TextField::TmdbKey),
        RowId::TelegramApiId => RowAction::Edit(TextField::TelegramApiId),
        RowId::TelegramApiHash => RowAction::Edit(TextField::TelegramApiHash),
        RowId::FfmpegPath => RowAction::Edit(TextField::FfmpegPath),
        RowId::YtDlpPath => RowAction::Edit(TextField::YtDlpPath),
        RowId::ClearHistory => RowAction::Confirm(Confirm::ClearHistory),
        RowId::Account => if ctx.status.ready() { RowAction::Confirm(Confirm::SignOut) } else { RowAction::Open(Route::Login) },
        _ => RowAction::Nothing,
    }
}

/// The dialog open over the rows.
#[derive(Clone, Copy, Debug, PartialEq, Eq, Structural)]
pub enum OpenDialog {
    /// A single-choice dialog with this many options.
    Choice(usize),
    Text(TextField),
    Confirm(Confirm),
}

/// What CENTER on the settings screen leads to.
#[derive(Clone, Copy, Debug, PartialEq, Eq, Structural)]
pub enum Activation {
    Nothing,
    /// Run the row's [`action`].
    Row(RowId),
    /// Close the choice dialog, then store option `i` when one was picked.
    Pick(Option<usize>),
    /// Close the dialog.
    Close,
    /// OK in the text dialog: store what was typed.
    Commit,
    /// OK in a confirm dialog: close it, then do what it asked.
    Confirmed(Confirm),
}

/// CENTER with `focus` on the screen while `open` is shown.
pub open spec fn activate_spec(focus: Focus, open: Option<OpenDialog>) -> Activation {
    if focus.zone == ZoneId(LIST) {
        if focus.index < row_ids_spec().len() {
            Activation::Row(row_ids_spec()[focus.index as int])
        } else {
            Activation::Nothing
        }
    } else if focus.zone == ZoneId(OPTIONS) {
        Activation::Pick(
            match open {
                Some(OpenDialog::Choice(n)) => if focus.index < n { Some(focus.index) } else { None },
                _ => None,
            },
        )
    } else if focus.zone == ZoneId(BUTTONS) && focus.index == CANCEL {
        Activation::Close
    } else if focus.zone == ZoneId(BUTTONS) {
        match open {
            Some(OpenDialog::Text(_)) => Activation::Commit,
            Some(OpenDialog::Confirm(c)) => Activation::Confirmed(c),
            _ => Activation::Nothing,
        }
    } else {
        Activation::Nothing
    }
}

/// CENTER on the settings screen: a row runs its action; in a choice dialog the focused
/// option is stored and the dialog closes; CANCEL closes a dialog; OK stores the typed
/// text or carries out what the confirm dialog asked.
pub fn settings_activate(focus: Focus, open: Option<OpenDialog>) -> (a: Activation)
    ensures
        a == activate_spec(focus, open),
{
    if focus.zone.0 == LIST {
        let ids = row_ids();
        if focus.index < ids.len() {
            Activation::Row(ids[focus.index])
        } else {
            Activation::Nothing
        }
    } else if focus.zone.0 == OPTIONS {
        let picked = match open {
            Some(OpenDialog::Choice(n)) => if focus.index < n { Some(focus.index) } else { None },
            _ => None,
        };
        Activation::Pick(picked)
    } else if focus.zone.0 == BUTTONS && focus.index == CANCEL {
        Activation::Close
    } else if focus.zone.0 == BUTTONS {
        match open {
            Some(OpenDialog::Text(_)) => Activation::Commit,
            Some(OpenDialog::Confirm(c)) => Activation::Confirmed(c),
            _ => Activation::Nothing,
        }
    } else {
        Activation::Nothing
    }
}

/// Moving `delta` options from option `index` of `len` (LEFT is -1, RIGHT +1), wrapping
/// around at either end.
pub open spec fn cycled(index: int, len: int, delta: int) -> int {
    (index + delta) % len
}

/// The option index `delta` steps from `index` among `len` options, wrapping around at
/// either end.
pub fn cycle_index(index: usize, len: usize, delta: i64) -> (n: usize)
    requires
        index < len,
    ensures
        n == cycled(index as int, len as int, delta as int),
        n < len,
{
    let l: u128 = len as u128;
    if delta >= 0 {
        let sum: u128 = index as u128 + delta as u128;
        let m: u128 = sum % l;
        m as usize
    } else {
        let back: u128 = (0i128 - delta as i128) as u128;
        let m: u128 = back % l;
        let r: u128 = if m <= index as u128 { index as u128 - m } else { index as u128 + l - m };
        proof {
            let x: int = index as int + delta as int;
            let q: int = back as int / l as int;
            vstd::arithmetic::div_mod::lemma_fundamental_div_mod(back as int, l as int);
            assert(back as int == (l as int) * q + m as int);
            if m <= index as u128 {
                assert(x == (0 - q) * l as int + r as int) by (nonlinear_arith)
                    requires
                        x == index as int - back as int,
                        back as int == q * l as int + m as int,
                        r as int == index as int - m as int,
                ;
                vstd::arithmetic::div_mod::lemma_fundamental_div_mod_converse(x, l as int, 0 - q, r as int);
            } else {
                assert(x == (0 - q - 1) * l as int + r as int) by (nonlinear_arith)
                    requires
                        x == index as int - back as int,
                        back as int == q * l as int + m as int,
                        r as int == index as int + l as int - m as int,
                ;
                vstd::arithmetic::div_mod::lemma_fundamental_div_mod_converse(x, l as int, 0 - q - 1, r as int);
            }
        }
        r as usize
    }
}

/// What LEFT or RIGHT on a row did.
#[derive(Clone, Copy, Debug, PartialEq, Eq, Structural)]
pub enum Cycle {
    /// The on/off row flipped.
    Flipped,
    /// The choice row moves to option `i`; the caller stores it.
    Choose(usize),
    /// The row neither flips nor offers choices.
    Nothing,
}

/// LEFT (`delta` -1) or RIGHT (+1) on row `id`, whose choice dialog offers `choices`
/// options with the current one at `current`: a toggle flips, a choice moves `delta`
/// options on and wraps around; any other row stays as it is.
pub fn cycle(id: RowId, s: &mut Toggles, choices: usize, current: usize, delta: i64) -> (c: Cycle)
    requires
        choices == 0 || current < choices,
    ensures
        is_toggle_row(id) ==> c == Cycle::Flipped && *final(s) == toggled(id, *old(s)),
        !is_toggle_row(id) ==> *final(s) == *old(s),
        !is_toggle_row(id) && choices > 0 ==> c == Cycle::Choose(cycled(current as int, choices as int, delta as int) as usize),
        !is_toggle_row(id) && choices == 0 ==> c == Cycle::Nothing,
{
    if toggle(id, s) {
        return Cycle::Flipped;
    }
    if choices == 0 {
        return Cycle::Nothing;
    }
    Cycle::Choose(cycle_index(current, choices, delta))
}

/// Flipping an on/off row twice leaves every setting as it was.
pub proof fn law_toggle_twice_restores(id: RowId, t: Toggles)
    ensures
        toggled(id, toggled(id, t)) == t,
{
}

/// On a choice row LEFT undoes RIGHT and RIGHT undoes LEFT, and either keeps the index
/// among the options.
pub proof fn law_left_undoes_right(index: int, len: int)
    requires
        0 <= index < len,
    ensures
        0 <= cycled(index, len, 1) < len,
        0 <= cycled(index, len, -1) < len,
        cycled(cycled(index, len, 1), len, -1) == index,
        cycled(cycled(index, len, -1), len, 1) == index,
{
    let r = cycled(index, len, 1);
    let l = cycled(index, len, -1);
    assert(r == if index + 1 == len { 0 } else { index + 1 }) by (nonlinear_arith)
        requires
            0 <= index < len,
            r == (index + 1) % len,
    ;
    assert(l == if index == 0 { len - 1 } else { index - 1 }) by (nonlinear_arith)
        requires
            0 <= index < len,
            l == (index - 1) % len,
    ;
    assert(cycled(r, len, -1) == index) by (nonlinear_arith)
        requires
            0 <= index < len,
            r == (if index + 1 == len { 0 } else { index + 1 }),
    ;
    assert(cycled(l, len, 1) == index) by (nonlinear_arith)
        requires
            0 <= index < len,
            l == (if index == 0 { len - 1 } else { index - 1 }),
    ;
}

} // verus!
