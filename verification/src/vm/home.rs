//! The Home screen: the top bar and rows, card texts, what the LIBRARY row shows and when it
//! loads, the library titles with their totals and sort orders, and the zones.
use vstd::prelude::*;

use crate::focus::{Layout, Zone, ZoneId};
use crate::model::{key_of, title_key, AuthState, EpisodeKey, LibrarySort, LibraryView, MediaType, Print, ProgressRecord, SeasonInfo, TelegramStatus, TitleDetails, TitleSummary, TmdbId};
use crate::router::{PlayRequest, Route};
use crate::text::{chars_of, decimal, lemma_lex_irreflexive, lemma_lex_total, lemma_lex_transitive, lex_less, lex_lt, lower, push_decimal, push_str, string_of, to_lower};

verus! {

/// The top bar.
pub const TOP_BAR: i32 = 0;
/// Continue watching.
pub const CONTINUE: i32 = 1;
/// The library row.
pub const LIBRARY: i32 = 2;
/// Trending movies.
pub const MOVIES: i32 = 3;
/// Trending TV.
pub const TV: i32 = 4;

pub const LOADING: &'static str = "LOADING";
pub const NO_RESULTS: &'static str = "NO RESULTS";
pub const REQUEST_FAILED: &'static str = "REQUEST FAILED";
pub const NOTHING_UPLOADED: &'static str = "NOTHING UPLOADED YET";
pub const SET_UP_TELEGRAM: &'static str = "SET UP TELEGRAM";
pub const CONNECT_TELEGRAM: &'static str = "CONNECT TELEGRAM";
pub const TDLIB_NOT_FOUND: &'static str = "TDLIB NOT FOUND";

/// The top bar, left to right: SEARCH · QUEUE (n) · LIBRARY · SETTINGS.
pub open spec fn top_bar_routes_spec() -> Seq<Route> {
    seq![Route::Search, Route::Queue, Route::Library, Route::Settings]
}

/// The top bar's routes, left to right.
pub fn top_bar_routes() -> (r: Vec<Route>)
    ensures
        r@ == top_bar_routes_spec(),
{
    vec![Route::Search, Route::Queue, Route::Library, Route::Settings]
}

/// The Home focus zones, top to bottom. Empty zones are skipped by the focus graph.
pub fn zones(continue_len: usize, library_len: usize, movies: usize, tv: usize) -> (z: Vec<Zone>)
    ensures
        z@ == seq![
            Zone { id: ZoneId(TOP_BAR), layout: Layout::TopBar, items: 4, text: false, preferred: 0 },
            Zone { id: ZoneId(CONTINUE), layout: Layout::Row, items: continue_len, text: false, preferred: 0 },
            Zone { id: ZoneId(LIBRARY), layout: Layout::Row, items: library_len, text: false, preferred: 0 },
            Zone { id: ZoneId(MOVIES), layout: Layout::Row, items: movies, text: false, preferred: 0 },
            Zone { id: ZoneId(TV), layout: Layout::Row, items: tv, text: false, preferred: 0 },
        ],
{
    vec![
        Zone::top_bar(ZoneId(TOP_BAR), 4),
        Zone::row(ZoneId(CONTINUE), continue_len),
        Zone::row(ZoneId(LIBRARY), library_len),
        Zone::row(ZoneId(MOVIES), movies),
        Zone::row(ZoneId(TV), tv),
    ]
}


/// `MOVIE` or `TV`.
pub open spec fn type_label_spec(media: MediaType) -> Seq<char> {
    match media {
        MediaType::Movie => "MOVIE"@,
        MediaType::Tv => "TV"@,
    }
}

/// `MOVIE` or `TV`.
pub fn type_label(media: MediaType) -> (r: &'static str)
    ensures
        r@ == type_label_spec(media),
{
    match media {
        MediaType::Movie => "MOVIE",
        MediaType::Tv => "TV",
    }
}

/// `2024 · MOVIE`, or just the type when the year is unknown.
pub fn title_meta(year: Option<u16>, media: MediaType) -> (r: String)
    ensures
        r@ == match year {
            Some(y) => decimal(y as nat) + " · "@ + type_label_spec(media),
            None => type_label_spec(media),
        },
{
    let mut out: Vec<char> = Vec::new();
    match year {
        Some(y) => {
            push_decimal(&mut out, y as u64);
            push_str(&mut out, " · ");
        },
        None => {},
    }
    push_str(&mut out, type_label(media));
    string_of(&out)
}

/// `TV · S2 E3` or `MOVIE`.
pub fn continue_meta(r: &ProgressRecord) -> (s: String)
    ensures
        s@ == match r.media {
            MediaType::Tv => "TV · S"@ + decimal(r.season as nat) + " E"@ + decimal(r.episode as nat),
            MediaType::Movie => "MOVIE"@,
        },
{
    match r.media {
        MediaType::Tv => {
            let mut out: Vec<char> = Vec::new();
            push_str(&mut out, "TV · S");
            push_decimal(&mut out, r.season as u64);
            push_str(&mut out, " E");
            push_decimal(&mut out, r.episode as u64);
            string_of(&out)
        },
        MediaType::Movie => crate::text::owned("MOVIE"),
    }
}

/// The player request that resumes a record where it stopped.
pub fn resume_request(r: &ProgressRecord) -> (p: PlayRequest)
    ensures
        p.key == title_key(r.id, r.media, r.season, r.episode),
        p.start_at == (if r.watched > 0 { Some(r.watched) } else { None }),
        !p.library_only,
{
    PlayRequest {
        key: key_of(r.id, r.media, r.season, r.episode),
        start_at: if r.watched > 0 { Some(r.watched) } else { None },
        library_only: false,
    }
}

/// The library row's data, loaded once Telegram is ready; `C` is a card.
#[derive(Debug, PartialEq)]
pub enum LibraryLoad<C> {
    /// Not requested yet, or invalidated (sort or channel changed, signed out).
    Idle,
    Loading,
    Loaded(Vec<C>),
    Failed,
}

/// What the LIBRARY row shows.
#[derive(Debug, PartialEq)]
pub enum LibraryRow<C> {
    /// Credentials are missing: a focusable `SET UP TELEGRAM` that opens Settings.
    SetUp,
    /// tdjson is missing: a plain stamp.
    Unavailable,
    /// Not signed in: a focusable `CONNECT TELEGRAM` that opens Login.
    Connect,
    Loading,
    Empty,
    Failed,
    Items(Vec<C>),
}

impl<C> LibraryRow<C> {
    /// The focusable prompt, if the row shows one.
    pub fn prompt(&self) -> (r: Option<&'static str>)
        ensures
            match *self {
                LibraryRow::SetUp => r is Some && r.unwrap()@ == "SET UP TELEGRAM"@,
                LibraryRow::Connect => r is Some && r.unwrap()@ == "CONNECT TELEGRAM"@,
                _ => r is None,
            },
    {
        match self {
            LibraryRow::SetUp => Some(SET_UP_TELEGRAM),
            LibraryRow::Connect => Some(CONNECT_TELEGRAM),
            _ => None,
        }
    }

    /// Where the prompt leads.
    pub fn prompt_route(&self) -> (r: Option<Route>)
        ensures
            r == match *self {
                LibraryRow::SetUp => Some(Route::Settings),
                LibraryRow::Connect => Some(Route::Login),
                _ => None,
            },
    {
        match self {
            LibraryRow::SetUp => Some(Route::Settings),
            LibraryRow::Connect => Some(Route::Login),
            _ => None,
        }
    }

    /// The centred state stamp, if the row shows one.
    pub fn stamp(&self) -> (r: Option<&'static str>)
        ensures
            match *self {
                LibraryRow::Unavailable => r is Some && r.unwrap()@ == "TDLIB NOT FOUND"@,
                LibraryRow::Loading => r is Some && r.unwrap()@ == "LOADING"@,
                LibraryRow::Empty => r is Some && r.unwrap()@ == "NOTHING UPLOADED YET"@,
                LibraryRow::Failed => r is Some && r.unwrap()@ == "REQUEST FAILED"@,
                _ => r is None,
            },
    {
        match self {
            LibraryRow::Unavailable => Some(TDLIB_NOT_FOUND),
            LibraryRow::Loading => Some(LOADING),
            LibraryRow::Empty => Some(NOTHING_UPLOADED),
            LibraryRow::Failed => Some(REQUEST_FAILED),
            _ => None,
        }
    }

    /// The cards of the row; none unless it shows items.
    pub fn cards(&self) -> (r: &[C])
        ensures
            r@ == match *self {
                LibraryRow::Items(cards) => cards@,
                _ => Seq::empty(),
            },
    {
        match self {
            LibraryRow::Items(cards) => cards.as_slice(),
            _ => &[],
        }
    }

    /// Focusable items in the row's zone: the prompt counts as one.
    pub fn focusable_len(&self) -> (n: usize)
        ensures
            n == match *self {
                LibraryRow::Items(cards) => cards@.len(),
                LibraryRow::SetUp | LibraryRow::Connect => 1,
                _ => 0,
            },
    {
        match self {
            LibraryRow::Items(cards) => cards.len(),
            LibraryRow::SetUp | LibraryRow::Connect => 1,
            _ => 0,
        }
    }
}

/// The kind of LIBRARY row for a Telegram status and a load (the cards aside).
pub open spec fn library_row_kind<C>(status: TelegramStatus, load: LibraryLoad<C>) -> u8 {
    match status {
        TelegramStatus::NotConfigured => 0,
        TelegramStatus::Unavailable => 1,
        TelegramStatus::Auth(AuthState::Idle) | TelegramStatus::Auth(AuthState::Connecting) => 3,
        TelegramStatus::Auth(AuthState::Ready { .. }) => match load {
            LibraryLoad::Idle | LibraryLoad::Loading => 3,
            LibraryLoad::Failed => 5,
            LibraryLoad::Loaded(cards) => if cards@.len() == 0 { 4 } else { 6 },
        },
        TelegramStatus::Auth(_) => 2,
    }
}

/// The kind of a LIBRARY row.
pub open spec fn row_kind<C>(r: LibraryRow<C>) -> u8 {
    match r {
        LibraryRow::SetUp => 0,
        LibraryRow::Unavailable => 1,
        LibraryRow::Connect => 2,
        LibraryRow::Loading => 3,
        LibraryRow::Empty => 4,
        LibraryRow::Failed => 5,
        LibraryRow::Items(_) => 6,
    }
}

/// Decides the LIBRARY row from the Telegram status and the load: the loaded cards show
/// once Telegram is ready.
pub fn library_row<C: Clone>(status: &TelegramStatus, load: &LibraryLoad<C>) -> (r: LibraryRow<C>)
    ensures
        row_kind(r) == library_row_kind(*status, *load),
        r matches LibraryRow::Items(out) ==> (*load matches LibraryLoad::Loaded(cards) && out@.len() == cards@.len()
            && forall|i: int| 0 <= i < cards@.len() ==> cloned::<C>(cards@[i], #[trigger] out@[i])),
{
    match status {
        TelegramStatus::NotConfigured => LibraryRow::SetUp,
        TelegramStatus::Unavailable => LibraryRow::Unavailable,
        TelegramStatus::Auth(AuthState::Idle) | TelegramStatus::Auth(AuthState::Connecting) => LibraryRow::Loading,
        TelegramStatus::Auth(AuthState::Ready { .. }) => match load {
            LibraryLoad::Idle | LibraryLoad::Loading => LibraryRow::Loading,
            LibraryLoad::Failed => LibraryRow::Failed,
            LibraryLoad::Loaded(cards) => if cards.len() == 0 {
                LibraryRow::Empty
            } else {
                LibraryRow::Items(cards.clone())
            },
        },
        TelegramStatus::Auth(_) => LibraryRow::Connect,
    }
}

/// True when the library should be (re)loaded now: Telegram is ready and nothing was
/// requested yet.
pub fn should_load_library<C>(status: &TelegramStatus, load: &LibraryLoad<C>) -> (r: bool)
    ensures
        r == (*status matches TelegramStatus::Auth(AuthState::Ready { .. }) && *load is Idle),
{
    status.ready() && match load {
        LibraryLoad::Idle => true,
        _ => false,
    }
}

/// Every key a title can have prints under: the movie, or each episode of each season
/// TMDB knows about, season by season.
pub open spec fn library_keys_spec(id: TmdbId, media: MediaType, seasons: Seq<SeasonInfo>) -> Seq<EpisodeKey>
    decreases seasons.len(),
{
    match media {
        MediaType::Movie => seq![EpisodeKey::movie_spec(id)],
        MediaType::Tv => if seasons.len() == 0 {
            Seq::empty()
        } else {
            library_keys_spec(id, media, seasons.drop_last()) + season_keys(id, seasons.last().number, seasons.last().episode_count as nat)
        },
    }
}

/// The keys of episodes 1 to `n` of a season.
pub open spec fn season_keys(id: TmdbId, season: u32, n: nat) -> Seq<EpisodeKey>
    decreases n,
{
    if n == 0 { Seq::empty() } else { season_keys(id, season, (n - 1) as nat).push(EpisodeKey::episode_spec(id, season, n as u32)) }
}

/// Every key a title can have prints under: the movie, or each episode of each season
/// TMDB knows about.
pub fn library_keys(d: &TitleDetails) -> (r: Vec<EpisodeKey>)
    ensures
        r@ == library_keys_spec(d.summary.id, d.summary.media, d.seasons@),
{
    let id = d.summary.id;
    let media = d.summary.media;
    let seasons = &d.seasons;
    match media {
        MediaType::Movie => vec![EpisodeKey::movie(id)],
        MediaType::Tv => {
            let mut out: Vec<EpisodeKey> = Vec::new();
            let mut i: usize = 0;
            while i < seasons.len()
                invariant
                    media == MediaType::Tv,
                    i <= seasons@.len(),
                    out@ == library_keys_spec(id, media, seasons@.take(i as int)),
                decreases seasons@.len() - i,
            {
                proof {
                    assert(seasons@.take(i + 1).drop_last() =~= seasons@.take(i as int));
                }
                let s = seasons[i];
                let ghost base = out@;
                let mut e: u64 = 1;
                while e <= s.episode_count as u64
                    invariant
                        1 <= e <= s.episode_count as u64 + 1,
                        out@ == base + season_keys(id, s.number, (e - 1) as nat),
                    decreases s.episode_count as u64 + 1 - e,
                {
                    out.push(EpisodeKey::episode(id, s.number, e as u32));
                    proof {
                        assert(season_keys(id, s.number, e as nat) == season_keys(id, s.number, (e - 1) as nat).push(EpisodeKey::episode_spec(id, s.number, e as u32)));
                    }
                    e = e + 1;
                    assert(out@ =~= base + season_keys(id, s.number, (e - 1) as nat));
                }
                i = i + 1;
            }
            assert(seasons@.take(seasons@.len() as int) =~= seasons@);
            out
        },
    }
}

/// A trending row's load.
#[derive(Debug, PartialEq)]
pub enum RowLoad<C> {
    Loading,
    Loaded(Vec<C>),
    Failed,
}

impl<C> RowLoad<C> {
    /// LOADING, NO RESULTS for an empty row, REQUEST FAILED; nothing once cards show.
    pub fn stamp(&self) -> (r: Option<&'static str>)
        ensures
            match *self {
                RowLoad::Loading => r is Some && r.unwrap()@ == "LOADING"@,
                RowLoad::Loaded(cards) => if cards@.len() == 0 { r is Some && r.unwrap()@ == "NO RESULTS"@ } else { r is None },
                RowLoad::Failed => r is Some && r.unwrap()@ == "REQUEST FAILED"@,
            },
    {
        match self {
            RowLoad::Loading => Some(LOADING),
            RowLoad::Loaded(cards) => if cards.len() == 0 { Some(NO_RESULTS) } else { None },
            RowLoad::Failed => Some(REQUEST_FAILED),
        }
    }

    /// The cards of a loaded row.
    pub fn cards(&self) -> (r: &[C])
        ensures
            r@ == match *self {
                RowLoad::Loaded(cards) => cards@,
                _ => Seq::empty(),
            },
    {
        match self {
            RowLoad::Loaded(cards) => cards.as_slice(),
            _ => &[],
        }
    }
}

/// CONTINUE WATCHING is hidden when there is nothing to continue.
pub fn continue_visible<C>(cards: &[C]) -> (r: bool)
    ensures
        r == (cards@.len() > 0),
{
    cards.len() > 0
}

/// A library title with what the sort orders need.
#[derive(Clone, Debug, PartialEq, Eq)]
pub struct LibraryTitle {
    pub summary: TitleSummary,
    /// The newest message id over every print (date added).
    pub newest: i64,
    /// Bytes over every print.
    pub size: u64,
}

/// The prints listed under each of `keys`, key by key.
pub open spec fn prints_over<L: LibraryView>(lib: L, keys: Seq<EpisodeKey>) -> Seq<Print>
    decreases keys.len(),
{
    if keys.len() == 0 {
        Seq::empty()
    } else {
        prints_over(lib, keys.drop_last()) + lib.prints_of(keys.last())
    }
}

/// The largest message id among `prints`, `i64::MIN` when there is none.
pub open spec fn newest_of(prints: Seq<Print>) -> i64
    decreases prints.len(),
{
    if prints.len() == 0 {
        i64::MIN
    } else {
        let rest = newest_of(prints.drop_last());
        if prints.last().newest_message_id > rest { prints.last().newest_message_id } else { rest }
    }
}

/// The bytes of `prints`, summed with saturation at `u64::MAX`.
pub open spec fn size_of(prints: Seq<Print>) -> u64
    decreases prints.len(),
{
    if prints.len() == 0 {
        0
    } else {
        let sum = size_of(prints.drop_last()) + prints.last().size;
        if sum > u64::MAX { u64::MAX } else { sum as u64 }
    }
}

/// Totals a resolved title's prints: the newest message id (0 when there is none) and
/// the bytes, over every key of the title.
pub fn library_title<L: LibraryView>(d: TitleDetails, lib: &L) -> (t: LibraryTitle)
    ensures
        t.summary == d.summary,
        ({
            let ps = prints_over(*lib, library_keys_spec(d.summary.id, d.summary.media, d.seasons@));
            &&& t.newest == (if newest_of(ps) == i64::MIN { 0 } else { newest_of(ps) })
            &&& t.size == size_of(ps)
        }),
{
    let keys = library_keys(&d);
    let ghost ks = keys@;
    let mut newest: i64 = i64::MIN;
    let mut size: u64 = 0;
    let mut i: usize = 0;
    while i < keys.len()
        invariant
            ks == keys@,
            i <= keys@.len(),
            newest == newest_of(prints_over(*lib, ks.take(i as int))),
            size == size_of(prints_over(*lib, ks.take(i as int))),
        decreases keys@.len() - i,
    {
        let prints = lib.prints(keys[i]);
        let ghost before = prints_over(*lib, ks.take(i as int));
        proof {
            assert(ks.take(i + 1).drop_last() =~= ks.take(i as int));
        }
        let mut j: usize = 0;
        while j < prints.len()
            invariant
                j <= prints@.len(),
                newest == newest_of(before + prints@.take(j as int)),
                size == size_of(before + prints@.take(j as int)),
            decreases prints@.len() - j,
        {
            proof {
                assert((before + prints@.take(j + 1)).drop_last() =~= before + prints@.take(j as int));
            }
            let p = &prints[j];
            if p.newest_message_id > newest {
                newest = p.newest_message_id;
            }
            size = size.saturating_add(p.size);
            j = j + 1;
        }
        proof {
            assert(before + prints@.take(prints@.len() as int) =~= prints_over(*lib, ks.take(i + 1)));
        }
        i = i + 1;
    }
    assert(ks.take(ks.len() as int) =~= ks);
    LibraryTitle { summary: d.summary, newest: if newest == i64::MIN { 0 } else { newest }, size }
}

/// `a` comes strictly before `b` in the `sort` order: TITLE compares the lowercased titles
/// A to Z, DATE ADDED puts the newest first, SIZE the largest first.
pub open spec fn sorts_before(sort: LibrarySort, a: LibraryTitle, b: LibraryTitle) -> bool {
    match sort {
        LibrarySort::Title => lex_lt(lower(a.summary.title@), lower(b.summary.title@)),
        LibrarySort::DateAdded => a.newest > b.newest,
        LibrarySort::Size => a.size > b.size,
    }
}

/// `a` and `b` tie in the `sort` order.
pub open spec fn same_rank(sort: LibrarySort, a: LibraryTitle, b: LibraryTitle) -> bool {
    match sort {
        LibrarySort::Title => lower(a.summary.title@) == lower(b.summary.title@),
        LibrarySort::DateAdded => a.newest == b.newest,
        LibrarySort::Size => a.size == b.size,
    }
}

/// The titles of `s` that tie with `x`, in their order.
pub open spec fn tied_with(sort: LibrarySort, x: LibraryTitle, s: Seq<LibraryTitle>) -> Seq<LibraryTitle> {
    s.filter(|y: LibraryTitle| same_rank(sort, x, y))
}

/// `out` is `titles` stably sorted by `sort`: no title comes before one that precedes it,
/// and the titles of each tie keep their order.
pub open spec fn stably_sorted(sort: LibrarySort, titles: Seq<LibraryTitle>, out: Seq<LibraryTitle>) -> bool {
    &&& forall|i: int, j: int| 0 <= i < j < out.len() ==> !sorts_before(sort, #[trigger] out[j], #[trigger] out[i])
    &&& forall|x: LibraryTitle| #[trigger] tied_with(sort, x, out) == tied_with(sort, x, titles)
}

proof fn lemma_sorts_before_transitive(sort: LibrarySort, a: LibraryTitle, b: LibraryTitle, c: LibraryTitle)
    requires
        sorts_before(sort, a, b),
        sorts_before(sort, b, c),
    ensures
        sorts_before(sort, a, c),
{
    if sort == LibrarySort::Title {
        lemma_lex_transitive(lower(a.summary.title@), lower(b.summary.title@), lower(c.summary.title@));
    }
}

proof fn lemma_sorts_before_irreflexive(sort: LibrarySort, a: LibraryTitle, b: LibraryTitle)
    requires
        same_rank(sort, a, b),
    ensures
        !sorts_before(sort, a, b),
{
    if sort == LibrarySort::Title {
        lemma_lex_irreflexive(lower(a.summary.title@));
    }
}

proof fn lemma_sorts_before_total(sort: LibrarySort, a: LibraryTitle, b: LibraryTitle)
    ensures
        same_rank(sort, a, b) || sorts_before(sort, a, b) || sorts_before(sort, b, a),
{
    if sort == LibrarySort::Title {
        lemma_lex_total(lower(a.summary.title@), lower(b.summary.title@));
    }
}

/// Filtering a sequence whose first item passes keeps that item first.
proof fn lemma_filter_first(s: Seq<LibraryTitle>, f: spec_fn(LibraryTitle) -> bool)
    requires
        s.len() > 0,
    ensures
        s.filter(f) == (if f(s[0]) { seq![s[0]] } else { Seq::<LibraryTitle>::empty() }) + s.drop_first().filter(f),
{
    assert(s =~= seq![s[0]] + s.drop_first());
    Seq::filter_distributes_over_add(seq![s[0]], s.drop_first(), f);
    reveal(Seq::filter);
    assert(seq![s[0]].drop_last() =~= Seq::<LibraryTitle>::empty());
    assert(Seq::<LibraryTitle>::empty().filter(f) =~= Seq::<LibraryTitle>::empty());
    assert(seq![s[0]].filter(f) =~= if f(s[0]) { seq![s[0]] } else { Seq::<LibraryTitle>::empty() });
}

/// An item of `s` that ties with `x` shows in the titles tied with `x`.
proof fn lemma_tied_nonempty(sort: LibrarySort, x: LibraryTitle, s: Seq<LibraryTitle>, k: int)
    requires
        0 <= k < s.len(),
        same_rank(sort, x, s[k]),
    ensures
        tied_with(sort, x, s).len() > 0,
{
    let f = |y: LibraryTitle| same_rank(sort, x, y);
    s.lemma_filter_contains(f, k);
}

/// Some item of `s` ties with `x` when the titles tied with `x` are not empty.
proof fn lemma_tied_member(sort: LibrarySort, x: LibraryTitle, s: Seq<LibraryTitle>) -> (k: int)
    requires
        tied_with(sort, x, s).len() > 0,
    ensures
        0 <= k < s.len(),
        same_rank(sort, x, s[k]),
{
    let f = |y: LibraryTitle| same_rank(sort, x, y);
    let y = s.filter(f)[0];
    s.lemma_filter_pred(f, 0);
    assert(s.filter(f).contains(y));
    s.lemma_filter_contains_rev(f, y);
    choose|k: int| 0 <= k < s.len() && s[k] == y
}

proof fn lemma_sorted_determined(sort: LibrarySort, a: Seq<LibraryTitle>, b: Seq<LibraryTitle>)
    requires
        forall|i: int, j: int| 0 <= i < j < a.len() ==> !sorts_before(sort, #[trigger] a[j], #[trigger] a[i]),
        forall|i: int, j: int| 0 <= i < j < b.len() ==> !sorts_before(sort, #[trigger] b[j], #[trigger] b[i]),
        forall|x: LibraryTitle| #[trigger] tied_with(sort, x, a) == tied_with(sort, x, b),
    ensures
        a == b,
    decreases a.len(),
{
    if a.len() == 0 || b.len() == 0 {
        if a.len() > 0 {
            lemma_tied_nonempty(sort, a[0], a, 0);
            assert(tied_with(sort, a[0], a) == tied_with(sort, a[0], b));
        } else if b.len() > 0 {
            lemma_tied_nonempty(sort, b[0], b, 0);
            assert(tied_with(sort, b[0], a) == tied_with(sort, b[0], b));
        } else {
            assert(a =~= b);
        }
        return;
    }
    let a0 = a[0];
    let b0 = b[0];
    lemma_sorts_before_total(sort, a0, b0);
    if sorts_before(sort, b0, a0) {
        lemma_tied_nonempty(sort, b0, b, 0);
        assert(tied_with(sort, b0, a) == tied_with(sort, b0, b));
        let k = lemma_tied_member(sort, b0, a);
        if k == 0 {
            lemma_sorts_before_irreflexive(sort, b0, a0);
        } else {
            assert(!sorts_before(sort, a[k], a[0]));
        }
        assert(false);
    }
    if sorts_before(sort, a0, b0) {
        lemma_tied_nonempty(sort, a0, a, 0);
        assert(tied_with(sort, a0, a) == tied_with(sort, a0, b));
        let k = lemma_tied_member(sort, a0, b);
        if k == 0 {
            lemma_sorts_before_irreflexive(sort, a0, b0);
        } else {
            assert(!sorts_before(sort, b[k], b[0]));
        }
        assert(false);
    }
    assert(same_rank(sort, a0, b0));
    let f0 = |y: LibraryTitle| same_rank(sort, a0, y);
    lemma_filter_first(a, f0);
    lemma_filter_first(b, f0);
    assert(tied_with(sort, a0, a) == tied_with(sort, a0, b));
    assert(same_rank(sort, a0, a0));
    assert(a.filter(f0)[0] == a0);
    assert(b.filter(f0)[0] == b0);
    assert(a0 == b0);
    let ta = a.drop_first();
    let tb = b.drop_first();
    assert forall|x: LibraryTitle| #[trigger] tied_with(sort, x, ta) == tied_with(sort, x, tb) by {
        let f = |y: LibraryTitle| same_rank(sort, x, y);
        lemma_filter_first(a, f);
        lemma_filter_first(b, f);
        assert(tied_with(sort, x, a) == tied_with(sort, x, b));
        let head = if f(a0) { seq![a0] } else { Seq::<LibraryTitle>::empty() };
        assert(a.filter(f) == head + ta.filter(f));
        assert(b.filter(f) == head + tb.filter(f));
        assert(ta.filter(f) =~= (head + ta.filter(f)).skip(head.len() as int));
        assert(tb.filter(f) =~= (head + tb.filter(f)).skip(head.len() as int));
    }
    assert forall|i: int, j: int| 0 <= i < j < ta.len() implies !sorts_before(sort, #[trigger] ta[j], #[trigger] ta[i]) by {
        assert(ta[j] == a[j + 1] && ta[i] == a[i + 1]);
    }
    assert forall|i: int, j: int| 0 <= i < j < tb.len() implies !sorts_before(sort, #[trigger] tb[j], #[trigger] tb[i]) by {
        assert(tb[j] == b[j + 1] && tb[i] == b[i + 1]);
    }
    lemma_sorted_determined(sort, ta, tb);
    assert(a =~= seq![a0] + ta);
    assert(b =~= seq![b0] + tb);
}

/// A stable sort has one outcome: two stable sorts of the same titles by the same order
/// are the same sequence, so the result of `sort_library` is determined by its input.
pub proof fn law_stable_sort_is_unique(sort: LibrarySort, titles: Seq<LibraryTitle>, a: Seq<LibraryTitle>, b: Seq<LibraryTitle>)
    requires
        stably_sorted(sort, titles, a),
        stably_sorted(sort, titles, b),
    ensures
        a == b,
{
    lemma_sorted_determined(sort, a, b);
}

/// `sorts_before` in code.
fn sorts_before_exec(sort: LibrarySort, a: &LibraryTitle, b: &LibraryTitle) -> (r: bool)
    ensures
        r == sorts_before(sort, *a, *b),
{
    match sort {
        LibrarySort::Title => {
            let la = to_lower(a.summary.title.as_str());
            let lb = to_lower(b.summary.title.as_str());
            lex_less(&chars_of(la.as_str()), &chars_of(lb.as_str()))
        },
        LibrarySort::DateAdded => a.newest > b.newest,
        LibrarySort::Size => a.size > b.size,
    }
}

/// Sorts the titles by `sort`; ties keep their order.
pub fn sort_titles(titles: Vec<LibraryTitle>, sort: LibrarySort) -> (r: Vec<LibraryTitle>)
    ensures
        stably_sorted(sort, titles@, r@),
{
    let ghost all = titles@;
    let mut rest = titles;
    let n = rest.len();
    let mut out: Vec<LibraryTitle> = Vec::new();
    let mut i: usize = 0;
    while rest.len() > 0
        invariant
            all.len() == n,
            i + rest@.len() == n,
            rest@ == all.subrange(i as int, n as int),
            forall|a: int, b: int| 0 <= a < b < out@.len() ==> !sorts_before(sort, #[trigger] out@[b], #[trigger] out@[a]),
            forall|x: LibraryTitle| #[trigger] tied_with(sort, x, out@) == tied_with(sort, x, all.take(i as int)),
        decreases rest@.len(),
    {
        let t = rest.remove(0);
        proof {
            assert(t == all[i as int]);
        }
        let mut p: usize = 0;
        while p < out.len() && !sorts_before_exec(sort, &t, &out[p])
            invariant
                p <= out@.len(),
                forall|k: int| 0 <= k < p ==> !sorts_before(sort, t, #[trigger] out@[k]),
            decreases out@.len() - p,
        {
            p = p + 1;
        }
        let ghost old_out = out@;
        let ghost pre = old_out.subrange(0, p as int);
        let ghost suf = old_out.subrange(p as int, old_out.len() as int);
        proof {
            // nothing after `p` ties with `t` or comes before it
            assert forall|k: int| p <= k < old_out.len() implies !same_rank(sort, t, #[trigger] old_out[k]) && !sorts_before(sort, old_out[k], t) by {
                assert(sorts_before(sort, t, old_out[p as int]));
                if k > p {
                    assert(!sorts_before(sort, old_out[k], old_out[p as int]));
                    if sorts_before(sort, old_out[k], t) {
                        lemma_sorts_before_transitive(sort, old_out[k], t, old_out[p as int]);
                    }
                } else {
                    if sorts_before(sort, old_out[k], t) {
                        lemma_sorts_before_transitive(sort, t, old_out[k], t);
                        lemma_sorts_before_irreflexive(sort, t, t);
                    }
                }
            }
        }
        out.insert(p, t);
        proof {
            assert(old_out =~= pre + suf);
            assert(out@ =~= pre + seq![t] + suf);
            assert forall|a: int, b: int| 0 <= a < b < out@.len() implies !sorts_before(sort, #[trigger] out@[b], #[trigger] out@[a]) by {
                if b < p {
                    assert(out@[a] == old_out[a] && out@[b] == old_out[b]);
                } else if b == p {
                    assert(out@[a] == old_out[a]);
                } else if a == p {
                    assert(out@[b] == old_out[b - 1]);
                } else if a < p {
                    assert(out@[a] == old_out[a] && out@[b] == old_out[b - 1]);
                } else {
                    assert(out@[a] == old_out[a - 1] && out@[b] == old_out[b - 1]);
                }
            }
            let taken = all.take(i + 1);
            assert(taken =~= all.take(i as int).push(t));
            assert forall|x: LibraryTitle| #[trigger] tied_with(sort, x, out@) == tied_with(sort, x, taken) by {
                let f = |y: LibraryTitle| same_rank(sort, x, y);
                Seq::filter_distributes_over_add(pre + seq![t], suf, f);
                Seq::filter_distributes_over_add(pre, seq![t], f);
                Seq::filter_distributes_over_add(pre, suf, f);
                Seq::filter_distributes_over_add(all.take(i as int), seq![t], f);
                reveal(Seq::filter);
                assert(seq![t].drop_last() =~= Seq::<LibraryTitle>::empty());
                assert(Seq::<LibraryTitle>::empty().filter(f) =~= Seq::<LibraryTitle>::empty());
                assert(seq![t].filter(f) =~= if f(t) { seq![t] } else { Seq::<LibraryTitle>::empty() });
                if f(t) {
                    assert(suf.filter(f) =~= Seq::<LibraryTitle>::empty()) by {
                        assert forall|k: int| 0 <= k < suf.len() implies !f(#[trigger] suf[k]) by {
                            assert(suf[k] == old_out[p + k]);
                        }
                        if suf.filter(f).len() > 0 {
                            let y = suf.filter(f)[0];
                            suf.lemma_filter_pred(f, 0);
                            assert(suf.filter(f).contains(y));
                            suf.lemma_filter_contains_rev(f, y);
                            let k = choose|k: int| 0 <= k < suf.len() && suf[k] == y;
                            assert(!f(suf[k]));
                        }
                    }
                }
                assert(tied_with(sort, x, old_out) == tied_with(sort, x, all.take(i as int)));
                assert(tied_with(sort, x, out@) == out@.filter(f));
                assert(tied_with(sort, x, taken) == taken.filter(f));
                assert(tied_with(sort, x, old_out) == old_out.filter(f));
                assert(out@.filter(f) == pre.filter(f) + seq![t].filter(f) + suf.filter(f));
                assert(old_out.filter(f) == pre.filter(f) + suf.filter(f));
                assert(tied_with(sort, x, all.take(i as int)) == all.take(i as int).filter(f));
                assert(taken =~= all.take(i as int) + seq![t]);
                assert(taken.filter(f) == old_out.filter(f) + seq![t].filter(f));
                assert(tied_with(sort, x, out@) =~= tied_with(sort, x, taken));
            }
        }
        i = i + 1;
        proof {
            assert(rest@ =~= all.subrange(i as int, n as int));
        }
    }
    assert(all.take(n as int) =~= all);
    out
}

/// Orders the library row by `sort`: TITLE (case-insensitive A to Z), DATE ADDED (newest
/// first) or SIZE (largest first). Ties keep their order.
pub fn sort_library(titles: Vec<LibraryTitle>, sort: LibrarySort) -> (r: Vec<TitleSummary>)
    ensures
        exists|sorted: Seq<LibraryTitle>| stably_sorted(sort, titles@, sorted) && r@ == sorted.map_values(|t: LibraryTitle| t.summary),
{
    let sorted = sort_titles(titles, sort);
    let ghost s = sorted@;
    let mut rest = sorted;
    let n = rest.len();
    let mut out: Vec<TitleSummary> = Vec::new();
    let mut i: usize = 0;
    while rest.len() > 0
        invariant
            s.len() == n,
            i + rest@.len() == n,
            rest@ == s.subrange(i as int, n as int),
            out@ == s.take(i as int).map_values(|t: LibraryTitle| t.summary),
        decreases rest@.len(),
    {
        let t = rest.remove(0);
        out.push(t.summary);
        i = i + 1;
        proof {
            assert(out@ =~= s.take(i as int).map_values(|t: LibraryTitle| t.summary));
            assert(rest@ =~= s.subrange(i as int, n as int));
        }
    }
    assert(s.take(n as int) =~= s);
    out
}

} // verus!
