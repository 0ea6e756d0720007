//! The catalog and library values the screens work on: titles, episode keys,
//! library prints and saved progress.
use vstd::prelude::*;

use crate::text::{decimal, push_decimal, push_str, string_of};

verus! {

/// A TMDB title id.
pub type TmdbId = u64;

/// Movie or TV show.
#[derive(Clone, Copy, Debug, PartialEq, Eq, Hash, Structural)]
pub enum MediaType {
    Movie,
    Tv,
}

/// A movie, or one episode of a show. Movies use season 0 and episode 0.
#[derive(Clone, Copy, Debug, PartialEq, Eq, Hash, Structural)]
pub struct EpisodeKey {
    pub tmdb: TmdbId,
    pub media: MediaType,
    pub season: u32,
    pub episode: u32,
}

impl EpisodeKey {
    pub open spec fn movie_spec(id: TmdbId) -> EpisodeKey {
        EpisodeKey { tmdb: id, media: MediaType::Movie, season: 0, episode: 0 }
    }

    pub open spec fn episode_spec(id: TmdbId, season: u32, episode: u32) -> EpisodeKey {
        EpisodeKey { tmdb: id, media: MediaType::Tv, season, episode }
    }

    /// The key of a movie.
    pub fn movie(id: TmdbId) -> (k: EpisodeKey)
        ensures
            k == EpisodeKey::movie_spec(id),
    {
        EpisodeKey { tmdb: id, media: MediaType::Movie, season: 0, episode: 0 }
    }

    /// The key of one episode of a show.
    pub fn episode(id: TmdbId, season: u32, episode: u32) -> (k: EpisodeKey)
        ensures
            k == EpisodeKey::episode_spec(id, season, episode),
    {
        EpisodeKey { tmdb: id, media: MediaType::Tv, season, episode }
    }
}

/// The key of `episode` of `season` for a show, or of the movie.
pub open spec fn title_key(id: TmdbId, media: MediaType, season: u32, episode: u32) -> EpisodeKey {
    match media {
        MediaType::Movie => EpisodeKey::movie_spec(id),
        MediaType::Tv => EpisodeKey::episode_spec(id, season, episode),
    }
}

/// `title_key` in code.
pub fn key_of(id: TmdbId, media: MediaType, season: u32, episode: u32) -> (k: EpisodeKey)
    ensures
        k == title_key(id, media, season, episode),
{
    match media {
        MediaType::Movie => EpisodeKey::movie(id),
        MediaType::Tv => EpisodeKey::episode(id, season, episode),
    }
}

/// One uploaded print of a movie or episode, as the library index lists it.
#[derive(Clone, Debug, PartialEq, Eq)]
pub struct Print {
    pub quality: String,
    pub size: u64,
    pub newest_message_id: i64,
}

impl Print {
    /// A copy of the print.
    pub fn duplicate(&self) -> (r: Print)
        ensures
            r == *self,
    {
        Print { quality: self.quality.clone(), size: self.size, newest_message_id: self.newest_message_id }
    }
}

/// A complete library print the player can play.
#[derive(Clone, Debug, PartialEq, Eq)]
pub struct Entry {
    pub key: EpisodeKey,
    pub quality: String,
    pub codec: String,
    pub size: u64,
    pub newest_message_id: i64,
}

/// `quality codec`, the print's label.
pub open spec fn entry_label(e: Entry) -> Seq<char> {
    e.quality@ + seq![' '] + e.codec@
}

impl Entry {
    /// A copy of the entry.
    pub fn duplicate(&self) -> (r: Entry)
        ensures
            r == *self,
    {
        Entry {
            key: self.key,
            quality: self.quality.clone(),
            codec: self.codec.clone(),
            size: self.size,
            newest_message_id: self.newest_message_id,
        }
    }

    /// `2160p DV hevc`.
    pub fn label(&self) -> (r: String)
        ensures
            r@ == entry_label(*self),
    {
        let mut out: Vec<char> = Vec::new();
        push_str(&mut out, self.quality.as_str());
        out.push(' ');
        push_str(&mut out, self.codec.as_str());
        string_of(&out)
    }
}

/// The library as the screens see it: the prints of each key.
pub trait LibraryView {
    /// The prints listed under `key`.
    spec fn prints_of(&self, key: EpisodeKey) -> Seq<Print>;

    /// The prints of one movie or episode.
    fn prints(&self, key: EpisodeKey) -> (r: Vec<Print>)
        ensures
            r@ == self.prints_of(key),
    ;
}

/// Nothing uploaded (Telegram not ready yet).
#[derive(Clone, Copy, Debug, Default)]
pub struct EmptyLibrary;

impl LibraryView for EmptyLibrary {
    open spec fn prints_of(&self, key: EpisodeKey) -> Seq<Print> {
        Seq::empty()
    }

    fn prints(&self, key: EpisodeKey) -> (r: Vec<Print>) {
        Vec::new()
    }
}

/// A snapshot of the library index: every print with its key, in index order.
#[derive(Clone, Debug, Default)]
pub struct LibraryIndex {
    pub items: Vec<(EpisodeKey, Print)>,
}

/// The prints of `items` listed under `key`, in order.
pub open spec fn prints_under(items: Seq<(EpisodeKey, Print)>, key: EpisodeKey) -> Seq<Print>
    decreases items.len(),
{
    if items.len() == 0 {
        Seq::empty()
    } else {
        let rest = prints_under(items.drop_last(), key);
        if items.last().0 == key {
            rest.push(items.last().1)
        } else {
            rest
        }
    }
}

impl LibraryIndex {
    /// An empty index.
    pub fn new() -> (r: LibraryIndex)
        ensures
            r.items@.len() == 0,
    {
        LibraryIndex { items: Vec::new() }
    }

    /// Lists `print` under `key`.
    pub fn add(&mut self, key: EpisodeKey, print: Print)
        ensures
            final(self).items@ == old(self).items@.push((key, print)),
    {
        self.items.push((key, print));
    }
}

impl LibraryView for LibraryIndex {
    open spec fn prints_of(&self, key: EpisodeKey) -> Seq<Print> {
        prints_under(self.items@, key)
    }

    fn prints(&self, key: EpisodeKey) -> (r: Vec<Print>) {
        let mut out: Vec<Print> = Vec::new();
        let mut i: usize = 0;
        while i < self.items.len()
            invariant
                i <= self.items@.len(),
                out@ == prints_under(self.items@.take(i as int), key),
            decreases self.items@.len() - i,
        {
            assert(self.items@.take(i + 1).drop_last() == self.items@.take(i as int));
            if self.items[i].0 == key {
                out.push(self.items[i].1.duplicate());
            }
            i = i + 1;
        }
        assert(self.items@.take(self.items@.len() as int) == self.items@);
        out
    }
}

/// The qualities of every print of `key` (`"2160p DV"`), in index order.
pub open spec fn qualities_of(prints: Seq<Print>) -> Seq<Seq<char>> {
    prints.map_values(|p: Print| p.quality@)
}

/// The qualities uploaded for `key`, in index order.
pub fn qualities<L: LibraryView>(lib: &L, key: EpisodeKey) -> (r: Vec<String>)
    ensures
        r@.map_values(|q: String| q@) == qualities_of(lib.prints_of(key)),
{
    let prints = lib.prints(key);
    let mut out: Vec<String> = Vec::new();
    let mut i: usize = 0;
    while i < prints.len()
        invariant
            i <= prints@.len(),
            prints@ == lib.prints_of(key),
            out@.map_values(|q: String| q@) == qualities_of(prints@.take(i as int)),
        decreases prints@.len() - i,
    {
        let q = crate::text::owned(prints[i].quality.as_str());
        let ghost before = out@;
        out.push(q);
        proof {
            assert(out@.map_values(|q: String| q@) =~= before.map_values(|q: String| q@).push(prints@[i as int].quality@));
            assert(qualities_of(prints@.take(i + 1)) =~= qualities_of(prints@.take(i as int)).push(prints@[i as int].quality@));
        }
        i = i + 1;
    }
    assert(prints@.take(prints@.len() as int) =~= prints@);
    out
}

/// Saved playback progress of a title.
#[derive(Clone, Debug, PartialEq, Eq)]
pub struct ProgressRecord {
    pub id: TmdbId,
    pub media: MediaType,
    pub title: String,
    pub poster: Option<String>,
    /// Seconds watched.
    pub watched: u32,
    /// Seconds in total, 0 when unknown.
    pub duration: u32,
    pub season: u32,
    pub episode: u32,
    /// Milliseconds since the epoch.
    pub updated: i64,
}

/// Telegram's sign-in state, as TDLib reports it.
#[derive(Debug, PartialEq, Eq)]
pub enum AuthState {
    Idle,
    Connecting,
    WaitPhone,
    /// A QR login link is waiting to be scanned.
    WaitQr { link: String },
    WaitCode,
    WaitPassword { hint: String },
    Ready { user: String },
    LoggingOut,
    Failed(String),
}

impl AuthState {
    /// A copy of the state.
    pub fn duplicate(&self) -> (r: AuthState)
        ensures
            r == *self,
    {
        match self {
            AuthState::Idle => AuthState::Idle,
            AuthState::Connecting => AuthState::Connecting,
            AuthState::WaitPhone => AuthState::WaitPhone,
            AuthState::WaitQr { link } => AuthState::WaitQr { link: link.clone() },
            AuthState::WaitCode => AuthState::WaitCode,
            AuthState::WaitPassword { hint } => AuthState::WaitPassword { hint: hint.clone() },
            AuthState::Ready { user } => AuthState::Ready { user: user.clone() },
            AuthState::LoggingOut => AuthState::LoggingOut,
            AuthState::Failed(m) => AuthState::Failed(m.clone()),
        }
    }
}

/// Where Telegram stands for the screens.
#[derive(Debug, PartialEq, Eq)]
pub enum TelegramStatus {
    /// The API id or hash is missing.
    NotConfigured,
    /// Credentials are set but tdjson could not be found or started.
    Unavailable,
    Auth(AuthState),
}

impl TelegramStatus {
    /// Signed in.
    pub fn ready(&self) -> (r: bool)
        ensures
            r == (*self matches TelegramStatus::Auth(AuthState::Ready { .. })),
    {
        match self {
            TelegramStatus::Auth(AuthState::Ready { .. }) => true,
            _ => false,
        }
    }
}

/// A season as TMDB lists it.
#[derive(Clone, Copy, Debug, PartialEq, Eq, Structural)]
pub struct SeasonInfo {
    pub number: u32,
    pub episode_count: u32,
}

/// An episode as TMDB lists it.
#[derive(Debug, PartialEq, Eq)]
pub struct EpisodeInfo {
    pub season: u32,
    pub episode: u32,
    pub name: String,
    pub overview: String,
    pub runtime_min: Option<u32>,
    /// A TMDB image path such as `/abc.jpg`.
    pub still_path: Option<String>,
}

/// A catalog title as TMDB lists it.
#[derive(Clone, Debug, PartialEq, Eq)]
pub struct TitleSummary {
    pub id: TmdbId,
    pub media: MediaType,
    pub title: String,
    pub year: Option<u16>,
    /// A TMDB image path such as `/abc.jpg`.
    pub poster_path: Option<String>,
    pub overview: String,
}

/// A title's details page: the summary, the runtime and the seasons TMDB knows about.
#[derive(Clone, Debug, PartialEq, Eq)]
pub struct TitleDetails {
    pub summary: TitleSummary,
    pub runtime_min: Option<u32>,
    pub seasons: Vec<SeasonInfo>,
}

/// How the library row is ordered.
#[derive(Clone, Copy, Debug, PartialEq, Eq, Structural)]
pub enum LibrarySort {
    /// Case-insensitive A to Z.
    Title,
    /// Newest first.
    DateAdded,
    /// Largest first.
    Size,
}

} // verus!
