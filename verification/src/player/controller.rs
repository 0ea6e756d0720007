//! Player rules as a state machine.
//!
//! The controller never blocks and never touches mpv, the window or the network. The view
//! feeds it [`Input`]s (keys, mouse, overlay buttons, engine events, results of async work and
//! a periodic [`Input::Tick`]) together with the time and the library, and gets back the
//! [`Effect`]s it has to carry out (async work, persistence, leaving) and the engine
//! [`Command`]s, in order. A load command the engine refuses is answered with
//! [`Input::EngineError`] and the rest of that batch is dropped, which is exactly what a
//! refused load does to the state. What to draw comes from [`Controller::view`].
//!
//! Times are whole milliseconds: the playback position, the duration, the seek target and
//! the clock.
use vstd::prelude::*;

use crate::focus::Direction as FocusDirection;
use crate::model::{entry_label, key_of, title_key, Entry, EpisodeKey, MediaType, ProgressRecord, TmdbId};
use crate::text::{decimal, pad2, push_decimal, push_pad2, push_str, string_of, to_upper, upper};

verus! {

/// The source is abandoned when nothing has played this long after a page load.
pub const WATCHDOG_MS: u64 = 45_000;
/// Progress is sampled this often.
pub const PROGRESS_TICK_MS: u64 = 2_000;
/// Progress is written at most this often, except at the end.
pub const PROGRESS_WRITE_MS: u64 = 10_000;
/// How long a hint stays up.
pub const HINT_MS: u64 = 2_500;
/// A key held this long (with repeats arriving) is a long press.
pub const LONG_PRESS_MS: u64 = 600;
/// Volume step in percent.
pub const VOLUME_STEP: u32 = 5;
/// Highest volume in percent (mpv amplifies above 100).
pub const VOLUME_MAX: u32 = 130;
/// The saved position is ignored when it is this close to the end.
pub const START_END_MARGIN_MS: u64 = 5_000;

/// The host of the page player.
pub const VIDLINK_HOST: &'static str = "vidlink.pro";

/// Page player actions (the `window.__flox` API of the page script).
#[derive(Clone, Copy, Debug, PartialEq, Eq, Structural)]
pub enum PageAction {
    /// Space into the page: toggles play, or activates in the page's own UI.
    Space,
    /// Space only when the page video is paused.
    Play,
    /// Space only when the page video is playing.
    Pause,
    ArrowLeft,
    ArrowRight,
    /// Seeks the page video by seconds.
    Seek(i64),
    EnterNav,
    ExitNav,
    Nav(Direction),
    /// Activates the focused page control.
    Activate,
    /// Opens the page's settings panel (entering navigation mode first).
    OpenSettings,
    /// Closes an open page panel; the result comes back as [`Input::PagePanelClosed`].
    ClosePanel,
    /// `__floxApplyStart(secs)`.
    ApplyStart(u32),
    /// `__floxApplySpeed(speed)`, the speed in percent.
    ApplySpeed(u32),
}

/// A direction inside the page player's own UI.
#[derive(Clone, Copy, Debug, PartialEq, Eq, Structural)]
pub enum Direction {
    Left,
    Right,
    Up,
    Down,
}

/// Logical keys (the keyboard, mouse and media keys map onto these).
#[derive(Clone, Copy, Debug, PartialEq, Eq, Structural)]
pub enum Key {
    Center,
    Back,
    Left,
    Right,
    Up,
    Down,
    /// M, the context-menu key or a right click.
    Menu,
    /// Ctrl+R.
    Reload,
    /// Space, or the play/pause media key.
    PlayPause,
    Play,
    Pause,
    Rewind,
    FastForward,
    /// The next-track media key.
    Next,
}

/// Overlay buttons.
#[derive(Clone, Copy, Debug, PartialEq, Eq, Structural)]
pub enum Button {
    Back,
    Rewind,
    PlayPause,
    Forward,
    VolumeDown,
    VolumeUp,
    Audio,
    Subtitles,
    Quality,
    Next,
}

/// Player state reported by mpv observers or the page's tick, in milliseconds.
#[derive(Clone, Copy, Debug, Default, PartialEq, Eq, Structural)]
pub struct Playback {
    pub time_ms: u64,
    pub duration_ms: u64,
    pub paused: bool,
    pub ended: bool,
}

/// How a saved position is used when the player opens.
#[derive(Clone, Copy, Debug, PartialEq, Eq, Structural)]
pub enum ResumeMode {
    Always,
    Ask,
    Never,
}

/// The settings the player reads.
#[derive(Debug, PartialEq, Eq)]
pub struct Settings {
    pub resume_mode: ResumeMode,
    /// The preferred library quality (`"1080p"`), `None` for the highest.
    pub quality: Option<String>,
    pub seek_step_seconds: u32,
    /// Playback speed in percent (100 is normal speed).
    pub speed_percent: u32,
    /// ISO 639-1 code; `None` uses the UI language.
    pub subtitle_language: Option<String>,
    pub audio_language: Option<String>,
    pub overlay_hide_ms: u32,
    pub autoplay_next: bool,
}

impl Default for Settings {
    fn default() -> (s: Settings)
        ensures
            s.resume_mode == ResumeMode::Always,
            s.quality.is_none(),
            s.seek_step_seconds == 10,
            s.speed_percent == 100,
            s.subtitle_language.is_none(),
            s.audio_language.is_none(),
            s.overlay_hide_ms == 4000,
            s.autoplay_next,
    {
        Settings {
            resume_mode: ResumeMode::Always,
            quality: None,
            seek_step_seconds: 10,
            speed_percent: 100,
            subtitle_language: None,
            audio_language: None,
            overlay_hide_ms: 4000,
            autoplay_next: true,
        }
    }
}

/// A copy of an optional string that equals it.
pub fn copy_opt(s: &Option<String>) -> (r: Option<String>)
    ensures
        r == *s,
{
    match s {
        Some(v) => Some(v.clone()),
        None => None,
    }
}

/// A subtitle file the page offers.
#[derive(Debug, PartialEq, Eq)]
pub struct Caption {
    pub url: String,
    /// The page's language: an ISO code or an English name.
    pub language: String,
    pub kind: String,
    /// The ISO 639-1 code of the language when `language` is its English name.
    pub english_iso: Option<String>,
    /// The two-letter code of the language (`"eng"` gives `"en"`), else the code as given.
    pub iso1: String,
}

impl Caption {
    /// A copy of the caption.
    pub fn duplicate(&self) -> (r: Caption)
        ensures
            r == *self,
    {
        Caption {
            url: self.url.clone(),
            language: self.language.clone(),
            kind: self.kind.clone(),
            english_iso: copy_opt(&self.english_iso),
            iso1: self.iso1.clone(),
        }
    }
}

/// What sniffing the page found.
#[derive(Debug, PartialEq, Eq)]
pub struct SniffResult {
    pub url: String,
    pub headers: Vec<(String, String)>,
    pub captions: Vec<Caption>,
}

/// One audio choice: the mpv track ids it groups, its label and its language.
#[derive(Debug, PartialEq, Eq)]
pub struct AudioOption {
    pub ids: Vec<i64>,
    /// `English · E-AC3 · 5.1`.
    pub label: String,
    /// The ISO 639-1 code of its language, when it has one.
    pub language_code: Option<String>,
}

/// One subtitle track.
#[derive(Debug, PartialEq, Eq)]
pub struct SubTrack {
    pub id: i64,
    pub title: Option<String>,
    /// The display name of its language, when it has one.
    pub language_name: Option<String>,
}

impl SubTrack {
    /// A copy of the track.
    pub fn duplicate(&self) -> (r: SubTrack)
        ensures
            r == *self,
    {
        SubTrack { id: self.id, title: copy_opt(&self.title), language_name: copy_opt(&self.language_name) }
    }
}

/// Everything the controller reacts to.
#[derive(Debug, PartialEq, Eq)]
pub enum Input {
    /// A key press or auto-repeat; `repeat` is 0 for the first press.
    Key { key: Key, repeat: u32 },
    /// A key release (needed for MENU and CENTER long presses).
    KeyUp(Key),
    Button(Button),
    /// The focused seek bar received LEFT (`forward = false`) or RIGHT.
    ScrubBy { forward: bool, repeat: u32 },
    /// The seek bar was clicked or dragged to a position (milliseconds).
    ScrubTo(u64),
    /// A track row in the open panel was picked.
    PickTrack(usize),
    MouseMove,
    /// A click on the video area (not on a control).
    VideoClick,
    /// The ASK dialog: `true` resumes, `false` starts over.
    Resume(bool),
    /// Drives every timer. Send it often (every 250 ms is plenty).
    Tick,
    /// The library subtitle finished downloading (or failed: `None`).
    LibraryPrepared { seq: u64, subtitle: Option<String> },
    Sniffed { seq: u64, result: SniffResult },
    SniffFailed { seq: u64 },
    /// The season's episode count from TMDB; 0 when the request failed.
    EpisodeCount(u32),
    /// mpv `file-loaded`, with the duration in milliseconds when already known (0 otherwise).
    FileLoaded { duration_ms: u64 },
    /// The first video frame was rendered.
    FirstFrame,
    Playback(Playback),
    /// mpv's `track-list` changed. `aid` and `sid` are the selected track ids.
    Tracks { audio: Vec<AudioOption>, subs: Vec<SubTrack>, aid: Option<i64>, sid: Option<i64> },
    EngineError(String),
    /// The page player finished loading its document.
    PageReady,
    /// The page player failed to load.
    PageFailed,
    /// The answer to [`PageAction::ClosePanel`].
    PagePanelClosed(bool),
}

/// The VidLink page of an episode or movie, opened at `start_at` seconds (0 for the start).
#[derive(Clone, Copy, Debug, PartialEq, Eq, Structural)]
pub struct PageUrl {
    pub key: EpisodeKey,
    pub start_at: u32,
}

/// Work the view carries out for the controller.
#[derive(Debug, PartialEq, Eq)]
pub enum Effect {
    /// Close the player screen.
    Exit,
    SaveProgress(ProgressRecord),
    /// Persist `quality` in settings.
    SaveQuality(String),
    /// Persist `audio_language` in settings.
    SaveAudioLanguage(String),
    /// Sniff the page in Playback mode and answer with `Sniffed` or `SniffFailed` carrying
    /// `seq`. Any earlier sniff can be cancelled.
    Sniff { seq: u64, page: PageUrl },
    /// Download the entry's subtitle (if any) fully and answer with `LibraryPrepared`.
    PrepareLibrary { seq: u64, entry: Entry },
    /// Fetch the season's episode count and answer with `EpisodeCount`.
    FetchEpisodeCount { tmdb: TmdbId, season: u32 },
    /// The overlay is up: its focus navigation owns this key.
    PassToOverlay { key: Key, repeat: u32 },
}

/// What the engine is told to do, in order.
#[derive(Debug, PartialEq, Eq)]
pub enum Command {
    /// Plays a library print; the controller seeks to `start` itself on `FileLoaded`.
    LoadLibrary { entry: Entry, subtitle: Option<String>, start: u32 },
    /// Plays a sniffed stream with [`stream_headers`] of its headers and its captions in
    /// [`order_captions`] order for `preferred`.
    LoadUrl { result: SniffResult, preferred: String, start: u32 },
    /// Seeks to a position in milliseconds.
    SeekTo(u64),
    /// Seeks by seconds.
    SeekBy(i64),
    SetPaused(bool),
    /// Speed in percent.
    SetSpeed(u32),
    /// Selects the audio option with these mpv track ids.
    SetAudio(Vec<i64>),
    /// Selects a subtitle track by mpv id, or turns subtitles off.
    SetSubtitle(Option<i64>),
    /// Volume in percent, 0 to [`VOLUME_MAX`].
    SetVolume(u32),
    /// Stops mpv and drops any cached library bytes.
    Stop,
    /// Shows the page player over the player area and loads the page in it.
    PageLoad(PageUrl),
    /// Runs an action in the page player.
    Page(PageAction),
    /// Hides and unloads the page player.
    PageClose,
}

/// Every volume the commands set lies within 0 to 130 percent.
pub open spec fn volumes_ok(ks: Seq<Command>) -> bool {
    forall|i: int| 0 <= i < ks.len() ==> (#[trigger] ks[i] matches Command::SetVolume(v) ==> v <= VOLUME_MAX)
}

proof fn lemma_volumes_concat()
    ensures
        forall|a: Seq<Command>, b: Seq<Command>| volumes_ok(a) && volumes_ok(b) ==> #[trigger] volumes_ok(a + b),
{
    assert forall|a: Seq<Command>, b: Seq<Command>| volumes_ok(a) && volumes_ok(b) implies #[trigger] volumes_ok(a + b) by {
        assert forall|i: int| 0 <= i < (a + b).len() implies ((#[trigger] (a + b)[i]) matches Command::SetVolume(v) ==> v <= VOLUME_MAX) by {
            if i < a.len() {
                assert((a + b)[i] == a[i]);
            } else {
                assert((a + b)[i] == b[i - a.len()]);
            }
        }
    }
}

proof fn lemma_volumes_small()
    ensures
        volumes_ok(Seq::<Command>::empty()),
        forall|x: Command| !(x is SetVolume) ==> #[trigger] volumes_ok(seq![x]),
{
    assert forall|x: Command| !(x is SetVolume) implies #[trigger] volumes_ok(seq![x]) by {
        assert forall|i: int| 0 <= i < seq![x].len() implies ((#[trigger] seq![x][i]) matches Command::SetVolume(v) ==> v <= VOLUME_MAX) by {
            assert(seq![x][i] == x);
        }
    }
}

/// What is playing.
#[derive(Debug, PartialEq, Eq)]
pub struct Meta {
    pub id: TmdbId,
    pub media: MediaType,
    pub title: String,
    pub poster: Option<String>,
    pub season: u32,
    pub episode: u32,
}

impl Meta {
    pub open spec fn key_spec(&self) -> EpisodeKey {
        title_key(self.id, self.media, self.season, self.episode)
    }

    /// The library key of what is playing.
    pub fn key(&self) -> (k: EpisodeKey)
        ensures
            k == self.key_spec(),
    {
        key_of(self.id, self.media, self.season, self.episode)
    }
}

/// How the player screen was opened.
#[derive(Debug, PartialEq, Eq)]
pub struct PlayerConfig {
    pub meta: Meta,
    /// Saved position in seconds, 0 for none.
    pub start_at: u32,
    pub settings: Settings,
    /// The OS UI language (ISO 639-1), used when no subtitle language is set.
    pub ui_language: String,
}

/// Which surface is up.
#[derive(Clone, Copy, Debug, PartialEq, Eq, Structural)]
pub enum Phase {
    /// The ASK dialog is showing.
    Asking,
    /// Resolving or opening a source; nothing is shown yet.
    Loading,
    /// mpv is showing video under the flox overlay.
    Native,
    /// The page player is visible with its own UI.
    Page,
    /// PLAYBACK FAILED; CENTER retries.
    Failed,
    Exited,
}

/// The tracks panel beside the overlay.
#[derive(Debug, PartialEq, Eq)]
pub struct TracksPanel {
    pub heading: String,
    pub labels: Vec<String>,
    pub selected: usize,
}

/// Everything the view draws.
#[derive(Debug, PartialEq, Eq)]
pub struct ViewState {
    pub phase: Phase,
    /// `Resume from 12:34` while asking.
    pub resume_label: Option<String>,
    pub overlay_visible: bool,
    pub tracks: Option<TracksPanel>,
    pub hint: Option<String>,
    /// `S1 · E3` or `MOVIE`.
    pub eyebrow: String,
    pub title: String,
    pub position: String,
    pub duration: String,
    pub time_ms: u64,
    pub length_ms: u64,
    pub paused: bool,
    pub volume: u32,
    pub nav_mode: bool,
    pub audio_available: bool,
    pub subtitles_available: bool,
    pub quality_available: bool,
    pub next_available: bool,
}

/// The library as the player sees it.
pub trait Prints {
    /// Whether Telegram is signed in and the library index is usable.
    spec fn ready_spec(&self) -> bool;

    /// Every complete print of an item, highest first.
    spec fn prints_spec(&self, key: EpisodeKey) -> Seq<Entry>;

    fn ready(&self) -> (r: bool)
        ensures
            r == self.ready_spec(),
    ;

    fn prints(&self, key: EpisodeKey) -> (r: Vec<Entry>)
        ensures
            r@ == self.prints_spec(key),
    ;
}

/// A snapshot of the library for the player: whether it is ready and every complete print,
/// highest first within each key.
#[derive(Debug, Default)]
pub struct PrintTable {
    pub ready: bool,
    pub entries: Vec<Entry>,
}

/// The entries of `s` under `key`, in order.
pub open spec fn entries_under(s: Seq<Entry>, key: EpisodeKey) -> Seq<Entry>
    decreases s.len(),
{
    if s.len() == 0 {
        Seq::empty()
    } else if s.last().key == key {
        entries_under(s.drop_last(), key).push(s.last())
    } else {
        entries_under(s.drop_last(), key)
    }
}

impl Prints for PrintTable {
    open spec fn ready_spec(&self) -> bool {
        self.ready
    }

    open spec fn prints_spec(&self, key: EpisodeKey) -> Seq<Entry> {
        entries_under(self.entries@, key)
    }

    fn ready(&self) -> (r: bool) {
        self.ready
    }

    fn prints(&self, key: EpisodeKey) -> (r: Vec<Entry>) {
        let mut out: Vec<Entry> = Vec::new();
        let mut i: usize = 0;
        while i < self.entries.len()
            invariant
                i <= self.entries@.len(),
                out@ == entries_under(self.entries@.take(i as int), key),
            decreases self.entries@.len() - i,
        {
            assert(self.entries@.take(i + 1).drop_last() == self.entries@.take(i as int));
            if self.entries[i].key == key {
                out.push(self.entries[i].duplicate());
            }
            i = i + 1;
        }
        assert(self.entries@.take(self.entries@.len() as int) == self.entries@);
        out
    }
}

/// `12:34`, or `1:02:03` from an hour.
pub open spec fn stamp_spec(secs: nat) -> Seq<char> {
    let h = secs / 3600;
    let m = secs / 60 % 60;
    let s = secs % 60;
    if h > 0 {
        decimal(h) + seq![':'] + pad2(m) + seq![':'] + pad2(s)
    } else {
        pad2(m) + seq![':'] + pad2(s)
    }
}

/// `12:34`, or `1:02:03` from an hour: the player's position stamp.
pub fn stamp(secs: u32) -> (r: String)
    ensures
        r@ == stamp_spec(secs as nat),
{
    let h = secs / 3600;
    let m = secs / 60 % 60;
    let s = secs % 60;
    let mut out: Vec<char> = Vec::new();
    if h > 0 {
        push_decimal(&mut out, h as u64);
        out.push(':');
    }
    push_pad2(&mut out, m as u64);
    out.push(':');
    push_pad2(&mut out, s as u64);
    string_of(&out)
}

/// How many steps one seek moves after `repeat` auto-repeats: one, then three from the
/// fifth repeat, then six from the eleventh.
pub open spec fn seek_factor(repeat: u32) -> u32 {
    if repeat <= 3 { 1 } else if repeat <= 9 { 3 } else { 6 }
}

/// The largest seek step the accelerated seek can multiply without overflow.
pub const MAX_SEEK_STEP: u32 = 715_827_882;

/// One step per press, growing to three and then six steps while the key is held.
pub fn seek_step(step: u32, repeat: u32) -> (r: u32)
    requires
        step <= MAX_SEEK_STEP,
    ensures
        r == step * seek_factor(repeat),
{
    if repeat <= 3 {
        step
    } else if repeat <= 9 {
        step * 3
    } else {
        step * 6
    }
}

/// The absolute value of `secs` as a natural number.
pub open spec fn abs_nat(secs: i64) -> nat {
    if secs < 0 { (-(secs as int)) as nat } else { secs as nat }
}

/// `+10 S` / `-30 S`.
pub open spec fn seek_hint_spec(secs: i64) -> Seq<char> {
    (if secs < 0 { seq!['-'] } else { seq!['+'] }) + decimal(abs_nat(secs)) + seq![' ', 'S']
}

/// `+10 S` / `-30 S`.
pub fn seek_hint(secs: i64) -> (r: String)
    ensures
        r@ == seek_hint_spec(secs),
{
    let mut out: Vec<char> = Vec::new();
    let mag: u64 = if secs < 0 {
        out.push('-');
        if secs == i64::MIN {
            9_223_372_036_854_775_808u64
        } else {
            (-secs) as u64
        }
    } else {
        out.push('+');
        secs as u64
    };
    push_decimal(&mut out, mag);
    out.push(' ');
    out.push('S');
    string_of(&out)
}

/// ASCII lowercase of one character.
pub open spec fn lower_char(c: char) -> char {
    if 'A' <= c && c <= 'Z' { ((c as u32) + 32) as char } else { c }
}

/// ASCII lowercase of a string.
pub open spec fn lower(s: Seq<char>) -> Seq<char> {
    s.map_values(|c: char| lower_char(c))
}

/// ASCII case-insensitive equality.
pub open spec fn eq_ignore_case(a: Seq<char>, b: Seq<char>) -> bool {
    lower(a) == lower(b)
}

fn lower_char_exec(c: char) -> (r: char)
    ensures
        r == lower_char(c),
{
    if 'A' <= c && c <= 'Z' {
        let b = c as u8;
        ((b + 32) as char)
    } else {
        c
    }
}

/// ASCII case-insensitive equality of two strings.
pub fn eq_ignore_ascii_case(a: &str, b: &str) -> (r: bool)
    ensures
        r == eq_ignore_case(a@, b@),
{
    let x = crate::text::chars_of(a);
    let y = crate::text::chars_of(b);
    if x.len() != y.len() {
        proof {
            assert(lower(a@).len() != lower(b@).len());
        }
        return false;
    }
    let mut i: usize = 0;
    while i < x.len()
        invariant
            x@ == a@,
            y@ == b@,
            x@.len() == y@.len(),
            i <= x@.len(),
            forall|j: int| 0 <= j < i ==> lower_char(#[trigger] x@[j]) == lower_char(y@[j]),
        decreases x@.len() - i,
    {
        if lower_char_exec(x[i]) != lower_char_exec(y[i]) {
            proof {
                assert(lower(a@)[i as int] != lower(b@)[i as int]);
            }
            return false;
        }
        i = i + 1;
    }
    proof {
        assert(lower(a@) =~= lower(b@));
    }
    true
}

/// The request headers the page set that are not forwarded to mpv (ignoring ASCII case).
pub open spec fn reserved_header(name: Seq<char>) -> bool {
    eq_ignore_case(name, "host"@) || eq_ignore_case(name, "content-length"@) || eq_ignore_case(
        name,
        "connection"@,
    ) || eq_ignore_case(name, "accept-encoding"@) || eq_ignore_case(name, "user-agent"@)
        || eq_ignore_case(name, "cookie"@)
}

fn is_reserved(name: &str) -> (r: bool)
    ensures
        r == reserved_header(name@),
{
    eq_ignore_ascii_case(name, "host") || eq_ignore_ascii_case(name, "content-length")
        || eq_ignore_ascii_case(name, "connection") || eq_ignore_ascii_case(name, "accept-encoding")
        || eq_ignore_ascii_case(name, "user-agent") || eq_ignore_ascii_case(name, "cookie")
}

/// A header as views.
pub open spec fn header_view(h: (String, String)) -> (Seq<char>, Seq<char>) {
    (h.0@, h.1@)
}

/// The position of the first header named `name` (ignoring ASCII case), or -1.
pub open spec fn find_header(hs: Seq<(Seq<char>, Seq<char>)>, name: Seq<char>) -> int
    decreases hs.len(),
{
    if hs.len() == 0 {
        -1
    } else if find_header(hs.drop_last(), name) >= 0 {
        find_header(hs.drop_last(), name)
    } else if eq_ignore_case(hs.last().0, name) {
        hs.len() - 1
    } else {
        -1
    }
}

/// Adds one page header: reserved names are dropped, a header of the same name is
/// replaced in place, others go last.
pub open spec fn add_header(
    hs: Seq<(Seq<char>, Seq<char>)>,
    h: (Seq<char>, Seq<char>),
) -> Seq<(Seq<char>, Seq<char>)> {
    if reserved_header(h.0) {
        hs
    } else if find_header(hs, h.0) >= 0 {
        hs.update(find_header(hs, h.0), h)
    } else {
        hs.push(h)
    }
}

/// The base headers with the page's headers `page` added in order.
pub open spec fn headers_spec(page: Seq<(Seq<char>, Seq<char>)>) -> Seq<(Seq<char>, Seq<char>)>
    decreases page.len(),
{
    if page.len() == 0 {
        seq![("Referer"@, "https://vidlink.pro/"@), ("Origin"@, "https://vidlink.pro"@)]
    } else {
        add_header(headers_spec(page.drop_last()), page.last())
    }
}

/// Referer and Origin for VidLink, then the page's headers minus the reserved ones; a page
/// header replaces a base one of the same name.
pub fn stream_headers(page: &Vec<(String, String)>) -> (r: Vec<(String, String)>)
    ensures
        r@.map_values(|h: (String, String)| header_view(h)) == headers_spec(
            page@.map_values(|h: (String, String)| header_view(h)),
        ),
{
    let ghost pv = page@.map_values(|h: (String, String)| header_view(h));
    let mut out: Vec<(String, String)> = Vec::new();
    out.push((crate::text::owned("Referer"), crate::text::owned("https://vidlink.pro/")));
    out.push((crate::text::owned("Origin"), crate::text::owned("https://vidlink.pro")));
    assert(out@.map_values(|h: (String, String)| header_view(h)) =~= headers_spec(pv.take(0)));
    let mut i: usize = 0;
    while i < page.len()
        invariant
            i <= page@.len(),
            pv == page@.map_values(|h: (String, String)| header_view(h)),
            out@.map_values(|h: (String, String)| header_view(h)) == headers_spec(pv.take(i as int)),
        decreases page@.len() - i,
    {
        let ghost before = out@.map_values(|h: (String, String)| header_view(h));
        assert(pv.take(i + 1).drop_last() == pv.take(i as int));
        assert(pv.take(i + 1).last() == pv[i as int]);
        let k = &page[i].0;
        let v = &page[i].1;
        if !is_reserved(k.as_str()) {
            let mut j: usize = 0;
            while j < out.len() && !eq_ignore_ascii_case(out[j].0.as_str(), k.as_str())
                invariant
                    j <= out@.len(),
                    before == out@.map_values(|h: (String, String)| header_view(h)),
                    find_header(before.take(j as int), k@) == -1,
                decreases out@.len() - j,
            {
                assert(before.take(j + 1).drop_last() == before.take(j as int));
                j = j + 1;
            }
            let found = j < out.len();
            if found {
                proof {
                    lemma_find_header_prefix(before, k@, j as int);
                }
                out.set(j, (k.clone(), v.clone()));
                assert(out@.map_values(|h: (String, String)| header_view(h)) =~= before.update(
                    j as int,
                    pv[i as int],
                ));
            } else {
                assert(before.take(before.len() as int) == before);
                out.push((k.clone(), v.clone()));
                assert(out@.map_values(|h: (String, String)| header_view(h)) =~= before.push(
                    pv[i as int],
                ));
            }
        }
        i = i + 1;
    }
    assert(pv.take(page@.len() as int) == pv);
    out
}

proof fn lemma_find_header_prefix(hs: Seq<(Seq<char>, Seq<char>)>, name: Seq<char>, j: int)
    requires
        0 <= j < hs.len(),
        find_header(hs.take(j), name) == -1,
        eq_ignore_case(hs[j].0, name),
    ensures
        find_header(hs, name) == j,
    decreases hs.len(),
{
    if hs.len() == j + 1 {
        assert(hs.drop_last() == hs.take(j));
    } else {
        assert(hs.drop_last().take(j) == hs.take(j));
        lemma_find_header_prefix(hs.drop_last(), name, j);
    }
}

/// True when the caption is in the `preferred` language: its name equals the code
/// (ignoring ASCII case), or one of its codes is the code.
pub open spec fn caption_matches(c: Caption, preferred: Seq<char>) -> bool {
    ||| eq_ignore_case(c.language@, preferred)
    ||| (c.english_iso is Some && c.english_iso.unwrap()@ == preferred)
    ||| c.iso1@ == preferred
}

fn matches_exec(c: &Caption, preferred: &str) -> (r: bool)
    ensures
        r == caption_matches(*c, preferred@),
{
    if eq_ignore_ascii_case(c.language.as_str(), preferred) {
        return true;
    }
    let p = crate::text::owned(preferred);
    match &c.english_iso {
        Some(code) => {
            if *code == p {
                return true;
            }
        },
        None => {},
    }
    c.iso1 == p
}

/// Captions in the preferred language first, otherwise in page order.
pub fn order_captions(captions: &Vec<Caption>, preferred: &str) -> (r: Vec<Caption>)
    ensures
        r@ == captions@.filter(|c: Caption| caption_matches(c, preferred@)) + captions@.filter(
            |c: Caption| !caption_matches(c, preferred@),
        ),
{
    let ghost yes = |c: Caption| caption_matches(c, preferred@);
    let ghost no = |c: Caption| !caption_matches(c, preferred@);
    let mut first: Vec<Caption> = Vec::new();
    let mut rest: Vec<Caption> = Vec::new();
    let mut i: usize = 0;
    while i < captions.len()
        invariant
            i <= captions@.len(),
            yes == (|c: Caption| caption_matches(c, preferred@)),
            no == (|c: Caption| !caption_matches(c, preferred@)),
            first@ == captions@.take(i as int).filter(yes),
            rest@ == captions@.take(i as int).filter(no),
        decreases captions@.len() - i,
    {
        let ghost t = captions@.take(i + 1);
        proof {
            reveal(Seq::filter);
            assert(t.drop_last() == captions@.take(i as int));
            assert(t.last() == captions@[i as int]);
            assert(t.filter(yes) == if yes(t.last()) { t.drop_last().filter(yes).push(t.last()) } else { t.drop_last().filter(yes) });
            assert(t.filter(no) == if no(t.last()) { t.drop_last().filter(no).push(t.last()) } else { t.drop_last().filter(no) });
        }
        let m = matches_exec(&captions[i], preferred);
        if m {
            first.push(captions[i].duplicate());
        } else {
            rest.push(captions[i].duplicate());
        }
        i = i + 1;
    }
    assert(captions@.take(captions@.len() as int) == captions@);
    first.append(&mut rest);
    first
}

/// The page of an episode or movie, as the player loads it.
pub open spec fn page_url_spec(p: PageUrl) -> Seq<char> {
    "https://vidlink.pro/"@ + (match p.key.media {
        MediaType::Movie => "movie/"@ + decimal(p.key.tmdb as nat),
        MediaType::Tv => "tv/"@ + decimal(p.key.tmdb as nat) + seq!['/'] + decimal(p.key.season as nat)
            + seq!['/'] + decimal(p.key.episode as nat),
    }) + "?autoplay=true&primaryColor=fafafa&nextbutton=false"@ + (if p.start_at > 0 {
        "&startAt="@ + decimal(p.start_at as nat)
    } else {
        Seq::empty()
    })
}

impl PageUrl {
    /// `https://vidlink.pro/tv/1399/1/2?autoplay=true&primaryColor=fafafa&nextbutton=false`,
    /// with `&startAt=<secs>` when the page opens at a saved position.
    pub fn url(&self) -> (r: String)
        ensures
            r@ == page_url_spec(*self),
    {
        let mut out: Vec<char> = Vec::new();
        push_str(&mut out, "https://vidlink.pro/");
        match self.key.media {
            MediaType::Movie => {
                push_str(&mut out, "movie/");
                push_decimal(&mut out, self.key.tmdb);
            },
            MediaType::Tv => {
                push_str(&mut out, "tv/");
                push_decimal(&mut out, self.key.tmdb);
                out.push('/');
                push_decimal(&mut out, self.key.season as u64);
                out.push('/');
                push_decimal(&mut out, self.key.episode as u64);
            },
        }
        push_str(&mut out, "?autoplay=true&primaryColor=fafafa&nextbutton=false");
        if self.start_at > 0 {
            push_str(&mut out, "&startAt=");
            push_decimal(&mut out, self.start_at as u64);
        }
        assert(out@ =~= page_url_spec(*self));
        string_of(&out)
    }
}

/// A key held down: when it went down and whether it already became a long press.
#[derive(Clone, Copy, Debug, Default, PartialEq, Eq, Structural)]
pub struct Press {
    pub down_at: Option<u64>,
    pub long: bool,
}

/// The press after a key-down, and whether it just became a long press.
pub open spec fn press_down(p: Press, repeat: u32, now: u64) -> (Press, bool) {
    if repeat == 0 || p.down_at is None {
        (Press { down_at: Some(now), long: false }, false)
    } else {
        let held = if now >= p.down_at.unwrap() { now - p.down_at.unwrap() } else { 0 };
        if !p.long && held >= LONG_PRESS_MS {
            (Press { long: true, ..p }, true)
        } else {
            (p, false)
        }
    }
}

/// The press after a key-up, and whether it ended a short press.
pub open spec fn press_up(p: Press) -> (Press, bool) {
    (Press { down_at: None, long: false }, p.down_at is Some && !p.long)
}

impl Press {
    /// Records a key-down; true when it just became a long press.
    pub fn down(&mut self, repeat: u32, now: u64) -> (r: bool)
        ensures
            (*final(self), r) == press_down(*old(self), repeat, now),
    {
        if repeat == 0 || self.down_at.is_none() {
            self.down_at = Some(now);
            self.long = false;
            return false;
        }
        let at = self.down_at.unwrap();
        let held = now.saturating_sub(at);
        if !self.long && held >= LONG_PRESS_MS {
            self.long = true;
            return true;
        }
        false
    }

    /// Records a key-up; true when it ends a short press.
    pub fn up(&mut self) -> (r: bool)
        ensures
            (*final(self), r) == press_up(*old(self)),
    {
        let short = self.down_at.is_some() && !self.long;
        self.down_at = None;
        self.long = false;
        short
    }
}

/// What the hint line says; the text is [`hint_text_spec`] of it.
#[derive(Debug, PartialEq, Eq)]
pub enum Hint {
    /// `RELOADING PLAYER`
    Reloading,
    /// `NEXT · S1 E4`
    Next { season: u32, episode: u32 },
    /// `EPISODE FINISHED`
    EpisodeFinished,
    /// `+10 S` / `-30 S`
    Seek(i64),
    /// `VOLUME · 125%`
    Volume(u32),
    /// `AUDIO · <label>` of the picked option's label.
    Audio(String),
    /// `SUBTITLES OFF`
    SubtitlesOff,
    /// `SUBTITLES · <title, language or "Subtitles">`
    Subtitle(SubTrack),
    /// `QUALITY · <label>` of the print now playing.
    Quality(Entry),
    /// `NAVIGATE · CENTER SELECT · BACK EXIT`
    Navigate,
}

/// The tracks mpv reported for the current file.
#[derive(Debug, PartialEq, Eq)]
pub struct TrackLists {
    pub audio: Vec<AudioOption>,
    pub subs: Vec<SubTrack>,
    pub aid: Option<i64>,
    pub sid: Option<i64>,
}

/// What one step asks of the view: effects first to last, engine commands first to last.
#[derive(Debug, PartialEq, Eq)]
pub struct Output {
    pub effects: Vec<Effect>,
    pub commands: Vec<Command>,
}

/// The source: which one plays, how it stands and the load sequence number.
#[derive(Debug, PartialEq, Eq)]
pub struct Source {
    pub start_at: u32,
    pub asking: bool,
    pub exited: bool,
    pub failed: bool,
    pub retried: bool,
    pub native_allowed: bool,
    pub native_shown: bool,
    pub native_active: bool,
    pub page_active: bool,
    pub library_failed: bool,
    pub playing_library: bool,
    pub library_entry: Option<Entry>,
    pub start_applied: bool,
    pub seq: u64,
    pub watchdog_at: Option<u64>,
}

/// The season's episode count and the next-episode state.
#[derive(Debug, PartialEq, Eq)]
pub struct Episodes {
    pub episode_count: u32,
    pub count_requested: bool,
    pub pending_end: bool,
    pub next_available: bool,
}

/// The playback report and when progress was last sampled and written.
#[derive(Debug, PartialEq, Eq)]
pub struct Progress {
    pub playback: Playback,
    pub has_playback: bool,
    pub last_write: Option<u64>,
    pub ended_fired: bool,
    pub next_progress_at: u64,
}

/// The overlay, the hint, page navigation mode, held keys and the volume.
#[derive(Debug, PartialEq, Eq)]
pub struct Ui {
    pub overlay_shown: bool,
    pub overlay_hide_at: u64,
    pub tracks_open: bool,
    pub hint: Option<Hint>,
    pub hint_hide_at: u64,
    pub nav_mode: bool,
    pub menu: Press,
    pub center: Press,
    pub volume: u32,
}

/// The player state machine.
#[derive(Debug)]
pub struct Controller {
    pub settings: Settings,
    /// The OS UI language, used when no subtitle language is set.
    pub ui_language: String,
    pub meta: Meta,
    pub src: Source,
    pub ep: Episodes,
    pub prog: Progress,
    pub ui: Ui,
    /// The tracks of the file mpv plays; `None` while nothing plays natively.
    pub tracks: Option<TrackLists>,
}

/// A step's result: the next state, the effects and the engine commands it adds.
pub type Out = (Controller, Seq<Effect>, Seq<Command>);

/// Two commands that do the same: equal, or selecting the same audio track ids.
pub open spec fn same_command(a: Command, b: Command) -> bool {
    match (a, b) {
        (Command::SetAudio(x), Command::SetAudio(y)) => x@ == y@,
        _ => a == b,
    }
}

/// `a + b`, saturating at the largest time.
pub open spec fn later(a: u64, b: u64) -> u64 {
    if a as int + b as int > u64::MAX as int { u64::MAX } else { (a + b) as u64 }
}

fn later_exec(a: u64, b: u64) -> (r: u64)
    ensures
        r == later(a, b),
{
    a.saturating_add(b)
}

/// Whole seconds of a millisecond position, as the player counts them.
pub open spec fn secs_of(ms: u64) -> u32 {
    if ms / 1000 > u32::MAX as int { u32::MAX } else { (ms / 1000) as u32 }
}

fn secs_of_exec(ms: u64) -> (r: u32)
    ensures
        r == secs_of(ms),
{
    let s = ms / 1000;
    if s > u32::MAX as u64 {
        u32::MAX
    } else {
        s as u32
    }
}

/// The larger of two positions.
pub open spec fn max_u32(a: u32, b: u32) -> u32 {
    if a >= b { a } else { b }
}

/// The position of the first print of quality `preferred`.
pub open spec fn first_quality(all: Seq<Entry>, preferred: Seq<char>) -> int {
    choose|i: int|
        0 <= i < all.len() && (#[trigger] all[i]).quality@ == preferred && forall|j: int|
            0 <= j < i ==> (#[trigger] all[j]).quality@ != preferred
}

/// The preferred quality when uploaded, else the highest.
pub open spec fn default_print_spec(all: Seq<Entry>, preferred: Seq<char>) -> Option<Entry> {
    if exists|i: int| 0 <= i < all.len() && (#[trigger] all[i]).quality@ == preferred {
        Some(all[first_quality(all, preferred)])
    } else if all.len() > 0 {
        Some(all[0])
    } else {
        None
    }
}

/// The position of the first print labelled `label`, if any.
pub open spec fn label_pos(all: Seq<Entry>, label: Seq<char>) -> int {
    choose|i: int|
        0 <= i < all.len() && entry_label(#[trigger] all[i]) == label && forall|j: int|
            0 <= j < i ==> entry_label(#[trigger] all[j]) != label
}

/// The print after the one labelled `label` (wrapping), or the first when none is.
pub open spec fn next_print_pos(all: Seq<Entry>, label: Seq<char>) -> int {
    if exists|i: int| 0 <= i < all.len() && entry_label(#[trigger] all[i]) == label {
        (label_pos(all, label) + 1) % (all.len() as int)
    } else {
        0
    }
}

/// No two prints share a label.
pub open spec fn distinct_labels(all: Seq<Entry>) -> bool {
    forall|i: int, j: int| 0 <= i < j < all.len() ==> entry_label(#[trigger] all[i]) != entry_label(#[trigger] all[j])
}

/// Where QUALITY, pressed `n` times from the print at `p`, lands.
pub open spec fn presses(all: Seq<Entry>, p: int, n: nat) -> int
    decreases n,
{
    if n == 0 { p } else { presses(all, next_print_pos(all, entry_label(all[p])), (n - 1) as nat) }
}

/// QUALITY steps to the next print, from the last back to the first: with two or more
/// prints it always switches to another label, and pressing it once per print comes back to
/// where it started.
pub proof fn law_quality_cycles_through_the_prints(all: Seq<Entry>, p: int)
    requires
        all.len() >= 2,
        distinct_labels(all),
        0 <= p < all.len(),
    ensures
        next_print_pos(all, entry_label(all[p])) == if p + 1 < all.len() { p + 1 } else { 0 },
        entry_label(all[next_print_pos(all, entry_label(all[p]))]) != entry_label(all[p]),
        presses(all, p, all.len()) == p,
{
    lemma_next_print(all, p);
    let q = next_print_pos(all, entry_label(all[p]));
    if q < p {
        assert(entry_label(all[q]) != entry_label(all[p]));
    } else {
        assert(entry_label(all[p]) != entry_label(all[q]));
    }
    lemma_presses(all, p, all.len());
    vstd::arithmetic::div_mod::lemma_fundamental_div_mod_converse(p + all.len(), all.len() as int, 1, p);
}

proof fn lemma_next_print(all: Seq<Entry>, p: int)
    requires
        all.len() >= 2,
        distinct_labels(all),
        0 <= p < all.len(),
    ensures
        next_print_pos(all, entry_label(all[p])) == if p + 1 < all.len() { p + 1 } else { 0 },
{
    let l = entry_label(all[p]);
    assert(exists|i: int| 0 <= i < all.len() && entry_label(#[trigger] all[i]) == l);
    let k = label_pos(all, l);
    assert(0 <= k < all.len() && entry_label(all[k]) == l);
    if k < p {
        assert(entry_label(all[k]) != entry_label(all[p]));
    } else if k > p {
        assert(entry_label(all[p]) != entry_label(all[k]));
    }
    assert(k == p);
    if p + 1 < all.len() {
        assert((p + 1) % (all.len() as int) == p + 1) by (nonlinear_arith)
            requires
                0 <= p + 1 < all.len(),
        ;
    } else {
        vstd::arithmetic::div_mod::lemma_fundamental_div_mod_converse(p + 1, all.len() as int, 1, 0);
    }
}

/// When no print carries the playing label, QUALITY goes to the first print.
pub proof fn law_quality_from_an_unlisted_print_starts_at_the_first(all: Seq<Entry>, label: Seq<char>)
    requires
        forall|i: int| 0 <= i < all.len() ==> entry_label(#[trigger] all[i]) != label,
    ensures
        next_print_pos(all, label) == 0,
{
}

/// Pressing QUALITY `n` times moves `n` prints on, wrapping around.
proof fn lemma_presses(all: Seq<Entry>, p: int, n: nat)
    requires
        all.len() >= 2,
        distinct_labels(all),
        0 <= p < all.len(),
    ensures
        presses(all, p, n) == (p + n) % (all.len() as int),
    decreases n,
{
    let len = all.len() as int;
    if n == 0 {
        assert(p % len == p) by (nonlinear_arith)
            requires
                0 <= p < len,
        ;
    } else {
        lemma_next_print(all, p);
        let q = if p + 1 < len { p + 1 } else { 0 };
        lemma_presses(all, q, (n - 1) as nat);
        assert((q + (n - 1)) % len == (p + n) % len) by (nonlinear_arith)
            requires
                len >= 2,
                0 <= p < len,
                q == (if p + 1 < len { p + 1 } else { 0 }),
                n >= 1,
        {
            if p + 1 == len {
                assert(p + n == (q + (n - 1)) + len);
                vstd::arithmetic::div_mod::lemma_mod_add_multiples_vanish(q + (n - 1), len);
            }
        }
    }
}

/// The position of the subtitle track with id `sid`, if any.
pub open spec fn sub_pos(subs: Seq<SubTrack>, sid: i64) -> int {
    choose|i: int|
        0 <= i < subs.len() && (#[trigger] subs[i]).id == sid && forall|j: int|
            0 <= j < i ==> (#[trigger] subs[j]).id != sid
}

/// The track after the selected one, or the first when none is selected.
pub open spec fn next_sub_pos(subs: Seq<SubTrack>, sid: Option<i64>) -> int {
    match sid {
        Some(id) => if exists|i: int| 0 <= i < subs.len() && (#[trigger] subs[i]).id == id {
            sub_pos(subs, id) + 1
        } else {
            0
        },
        None => 0,
    }
}

/// The audio options of the tracks, empty when there are none.
pub open spec fn audio_of(t: Option<TrackLists>) -> Seq<AudioOption> {
    match t {
        Some(l) => l.audio@,
        None => Seq::empty(),
    }
}

/// The subtitle tracks, empty when there are none.
pub open spec fn subs_of(t: Option<TrackLists>) -> Seq<SubTrack> {
    match t {
        Some(l) => l.subs@,
        None => Seq::empty(),
    }
}

/// The record written for the playback position `p` of `meta` at `epoch` ms.
pub open spec fn record_spec(meta: Meta, p: Playback, epoch: i64) -> ProgressRecord {
    ProgressRecord {
        id: meta.id,
        media: meta.media,
        title: meta.title,
        poster: meta.poster,
        watched: secs_of(p.time_ms),
        duration: secs_of(p.duration_ms),
        season: meta.season,
        episode: meta.episode,
        updated: epoch,
    }
}

/// The page actions navigation mode sends for an arrow or play/pause.
pub open spec fn nav_action(key: Key) -> Option<PageAction> {
    match key {
        Key::Left => Some(PageAction::Nav(Direction::Left)),
        Key::Right => Some(PageAction::Nav(Direction::Right)),
        Key::Up => Some(PageAction::Nav(Direction::Up)),
        Key::Down => Some(PageAction::Nav(Direction::Down)),
        Key::PlayPause => Some(PageAction::Space),
        _ => None,
    }
}

/// True when a step that returned `o` left the controller at `c` and added exactly `o`'s
/// effects and commands to `io0`, giving `io1`.
pub open spec fn did(o: Out, c: Controller, io0: Output, io1: Output) -> bool {
    &&& c == o.0
    &&& io1.effects@ =~= io0.effects@ + o.1
    &&& io1.commands@ =~= io0.commands@ + o.2
}

/// Like [`did`], with the commands compared by [`same_command`].
pub open spec fn did_alike(o: Out, c: Controller, io0: Output, io1: Output) -> bool {
    &&& c == o.0
    &&& io1.effects@ =~= io0.effects@ + o.1
    &&& io1.commands@.len() == io0.commands@.len() + o.2.len()
    &&& forall|i: int|
        0 <= i < io1.commands@.len() ==> same_command(#[trigger] io1.commands@[i], (io0.commands@ + o.2)[i])
}

/// A copy of an optional entry that equals it.
fn copy_entry(e: &Option<Entry>) -> (r: Option<Entry>)
    ensures
        r == *e,
{
    match e {
        Some(x) => Some(x.duplicate()),
        None => None,
    }
}

/// Two steps in a row add the first step's effects and commands, then the second's.
proof fn lemma_then(a: Out, b: Out, c: Controller, io0: Output, io1: Output, io2: Output)
    requires
        did(a, a.0, io0, io1),
        did(b, c, io1, io2),
    ensures
        did((b.0, a.1 + b.1, a.2 + b.2), c, io0, io2),
{
    assert(io2.effects@ =~= io0.effects@ + (a.1 + b.1));
    assert(io2.commands@ =~= io0.commands@ + (a.2 + b.2));
}

impl Controller {
    // ---- the rules, as functions of the state ------------------------------------------

    pub open spec fn s_reset_bridge(c: Controller) -> Controller {
        Controller {
            prog: Progress {
                playback: Playback { time_ms: 0, duration_ms: 0, paused: false, ended: false },
                has_playback: false,
                ended_fired: false,
                last_write: None,
                ..c.prog
            },
            ..c
        }
    }

    pub open spec fn s_exit_nav(c: Controller) -> Out {
        if !c.ui.nav_mode {
            (c, seq![], seq![])
        } else {
            (
                Controller { ui: Ui { nav_mode: false, hint: None, ..c.ui }, ..c },
                seq![],
                seq![Command::Page(PageAction::ExitNav)],
            )
        }
    }

    pub open spec fn s_stop_native(c: Controller) -> Out {
        (Controller { src: Source { native_active: false, ..c.src }, tracks: None, ..c }, seq![], seq![Command::Stop])
    }

    pub open spec fn s_hide_overlay(c: Controller) -> Controller {
        Controller { ui: Ui { tracks_open: false, overlay_shown: false, ..c.ui }, ..c }
    }

    pub open spec fn s_touch(c: Controller, now: u64) -> Controller {
        Controller { ui: Ui { overlay_hide_at: later(now, c.settings.overlay_hide_ms as u64), ..c.ui }, ..c }
    }

    pub open spec fn s_show_hint(c: Controller, h: Hint, now: u64) -> Controller {
        Controller { ui: Ui { hint: Some(h), hint_hide_at: later(now, HINT_MS), ..c.ui }, ..c }
    }

    pub open spec fn s_show_overlay(c: Controller, now: u64) -> Controller {
        Self::s_touch(Controller { ui: Ui { overlay_shown: true, ..c.ui }, ..c }, now)
    }

    pub open spec fn s_request_count(c: Controller) -> Out {
        (
            Controller { ep: Episodes { count_requested: true, ..c.ep }, ..c },
            seq![Effect::FetchEpisodeCount { tmdb: c.meta.id, season: c.meta.season }],
            seq![],
        )
    }

    pub open spec fn s_refresh_next(c: Controller) -> Out {
        let tv = c.meta.media == MediaType::Tv;
        let c1 = Controller {
            ep: Episodes { next_available: tv && c.meta.episode < c.ep.episode_count, ..c.ep },
            ..c
        };
        if tv && c.ep.episode_count == 0 && !c.ep.count_requested {
            Self::s_request_count(c1)
        } else {
            (c1, seq![], seq![])
        }
    }

    /// The preferred quality of the settings, empty for the highest.
    pub open spec fn preferred_quality(c: Controller) -> Seq<char> {
        match c.settings.quality {
            Some(q) => q@,
            None => Seq::empty(),
        }
    }

    /// The source pick: the library print when Telegram is ready, one exists and the library
    /// has not failed this episode; else the VidLink page (sniffed for mpv, or the page
    /// player once native playback has failed this session).
    /// The first half of a load: the bridge is reset, navigation mode, native playback and
    /// the overlay are closed and the next-episode state is refreshed.
    pub open spec fn s_load_begin(c: Controller) -> Out {
        let c1 = Self::s_reset_bridge(c);
        let (c2, f2, k2) = Self::s_exit_nav(c1);
        let (c3, f3, k3) = Self::s_stop_native(c2);
        let c3h = Self::s_hide_overlay(c3);
        let c4 = Controller { src: Source { native_shown: false, failed: false, ..c3h.src }, ..c3h };
        let (c5, f5, k5) = Self::s_refresh_next(c4);
        (c5, f2 + f3 + f5, k2 + k3 + k5)
    }

    /// The second half of a load: the source pick under a new sequence number.
    pub open spec fn s_load_pick<P: Prints>(c: Controller, lib: P, now: u64) -> Out {
        let seq = if c.src.seq == u64::MAX { 0 } else { (c.src.seq + 1) as u64 };
        let entry = if c.src.library_failed || !lib.ready_spec() {
            None
        } else {
            default_print_spec(lib.prints_spec(c.meta.key_spec()), Self::preferred_quality(c))
        };
        let c6 = Controller {
            src: Source { watchdog_at: None, seq, playing_library: entry is Some, library_entry: entry, ..c.src },
            ..c
        };
        match entry {
            Some(e) => {
                let close = c6.src.page_active;
                let c7 = Controller { src: Source { page_active: false, ..c6.src }, ..c6 };
                (
                    c7,
                    seq![Effect::PrepareLibrary { seq, entry: e }],
                    if close { seq![Command::PageClose] } else { seq![] },
                )
            },
            None => {
                let c7 = Controller { src: Source { watchdog_at: Some(later(now, WATCHDOG_MS)), ..c6.src }, ..c6 };
                let page = PageUrl { key: c7.meta.key_spec(), start_at: c7.src.start_at };
                if c7.src.native_allowed {
                    (c7, seq![Effect::Sniff { seq, page }], seq![])
                } else {
                    (Controller { src: Source { page_active: true, ..c7.src }, ..c7 }, seq![], seq![Command::PageLoad(page)])
                }
            },
        }
    }

    /// The source pick: the library print when Telegram is ready, one exists and the library
    /// has not failed this episode; else the VidLink page (sniffed for mpv, or the page
    /// player once native playback has failed this session).
    #[verifier::opaque]
    pub open spec fn s_load<P: Prints>(c: Controller, lib: P, now: u64) -> Out {
        let (c5, f5, k5) = Self::s_load_begin(c);
        let (c7, f7, k7) = Self::s_load_pick(c5, lib, now);
        (c7, f5 + f7, k5 + k7)
    }

    pub open spec fn s_after_native_load(c: Controller) -> Out {
        (
            Controller { src: Source { native_active: true, ..c.src }, ..c },
            seq![],
            if c.ui.volume != 100 {
                seq![Command::SetSpeed(c.settings.speed_percent), Command::SetVolume(c.ui.volume)]
            } else {
                seq![Command::SetSpeed(c.settings.speed_percent)]
            },
        )
    }

    pub open spec fn s_start_library(c: Controller, subtitle: Option<String>) -> Out {
        match c.src.library_entry {
            None => (c, seq![], seq![]),
            Some(e) => {
                let c1 = Controller { src: Source { start_applied: false, ..c.src }, ..c };
                let (c2, f2, k2) = Self::s_after_native_load(c1);
                (c2, f2, seq![Command::LoadLibrary { entry: e, subtitle, start: c.src.start_at }] + k2)
            },
        }
    }

    /// The subtitle language captions are ordered for.
    pub open spec fn preferred_language(c: Controller) -> String {
        match c.settings.subtitle_language {
            Some(l) => l,
            None => c.ui_language,
        }
    }

    pub open spec fn s_start_url(c: Controller, result: SniffResult) -> Out {
        if !c.src.native_allowed || c.src.native_active || c.src.page_active {
            (c, seq![], seq![])
        } else {
            let at = max_u32(c.src.start_at, secs_of(c.prog.playback.time_ms));
            let c1 = Controller { src: Source { start_at: at, start_applied: false, ..c.src }, ..c };
            let (c2, f2, k2) = Self::s_after_native_load(c1);
            (
                c2,
                f2,
                seq![Command::LoadUrl { result, preferred: Self::preferred_language(c), start: at }] + k2,
            )
        }
    }

    /// The saved position is applied once, and only when more than 5 s before the end.
    pub open spec fn s_on_file_loaded(c: Controller, duration_ms: u64) -> Out {
        if !c.src.native_active || c.src.start_applied {
            (c, seq![], seq![])
        } else {
            let c1 = Controller { src: Source { start_applied: true, ..c.src }, ..c };
            let start = c.src.start_at as int * 1000;
            if c.src.start_at > 0 && (duration_ms == 0 || start + START_END_MARGIN_MS < duration_ms) {
                (c1, seq![], seq![Command::SeekTo(start as u64)])
            } else {
                (c1, seq![], seq![])
            }
        }
    }

    pub open spec fn s_on_first_frame(c: Controller) -> Out {
        if c.src.native_shown || !c.src.native_active {
            (c, seq![], seq![])
        } else {
            Self::s_exit_nav(Controller { src: Source { native_shown: true, watchdog_at: None, ..c.src }, ..c })
        }
    }

    pub open spec fn s_leave(c: Controller) -> Out {
        let (c1, f1, k1) = Self::s_stop_native(c);
        let close = c1.src.page_active;
        (
            Controller { src: Source { page_active: false, exited: true, ..c1.src }, ..c1 },
            f1 + seq![Effect::Exit],
            if close { k1 + seq![Command::PageClose] } else { k1 },
        )
    }

    pub open spec fn s_show_failed(c: Controller) -> Out {
        let close = c.src.page_active;
        (
            Controller { src: Source { watchdog_at: None, failed: true, page_active: false, ..c.src }, ..c },
            seq![],
            if close { seq![Command::PageClose] } else { seq![] },
        )
    }

    pub open spec fn s_reload<P: Prints>(c: Controller, lib: P, now: u64) -> Out {
        let at = max_u32(c.src.start_at, secs_of(c.prog.playback.time_ms));
        let c1 = Controller { src: Source { start_at: at, ..c.src }, ..c };
        Self::s_load(Self::s_show_hint(c1, Hint::Reloading, now), lib, now)
    }

    pub open spec fn s_manual_reload<P: Prints>(c: Controller, lib: P, now: u64) -> Out {
        Self::s_reload(Controller { src: Source { retried: false, ..c.src }, ..c }, lib, now)
    }

    /// One automatic reload covers transient failures before giving up.
    pub open spec fn s_on_load_failed<P: Prints>(c: Controller, lib: P, now: u64) -> Out {
        if c.src.retried {
            Self::s_show_failed(c)
        } else {
            Self::s_reload(Controller { src: Source { retried: true, ..c.src }, ..c }, lib, now)
        }
    }

    /// A native failure: the library is dropped for this episode, or a sniffed stream sends
    /// the rest of the session to the page player.
    /// After a native failure: the library is dropped for this episode, or a sniffed stream
    /// sends the rest of the session to the page player; the position is kept.
    pub open spec fn s_drop_source(c: Controller, at: u32, now: u64) -> Controller {
        let c2 = if c.src.playing_library {
            Controller { src: Source { library_failed: true, ..c.src }, ..c }
        } else {
            Controller { src: Source { native_allowed: false, ..c.src }, ..c }
        };
        let c3 = Controller { src: Source { start_at: max_u32(c2.src.start_at, at), ..c2.src }, ..c2 };
        if c3.src.native_shown { Self::s_show_hint(c3, Hint::Reloading, now) } else { c3 }
    }

    pub open spec fn s_on_engine_error<P: Prints>(c: Controller, lib: P, now: u64) -> Out {
        if !c.src.native_active {
            (c, seq![], seq![])
        } else {
            let at = secs_of(c.prog.playback.time_ms);
            let (c1, f1, k1) = Self::s_stop_native(c);
            let (c5, f5, k5) = Self::s_load(Self::s_drop_source(c1, at, now), lib, now);
            (c5, f1 + f5, k1 + k5)
        }
    }

    /// Next only within the season: no rollover.
    pub open spec fn s_play_next<P: Prints>(c: Controller, lib: P, now: u64) -> Out {
        if c.meta.media != MediaType::Tv || c.meta.episode >= c.ep.episode_count {
            (c, seq![], seq![])
        } else {
            let episode = (c.meta.episode + 1) as u32;
            let c1 = Controller {
                meta: Meta { episode, ..c.meta },
                src: Source { start_at: 0, retried: false, library_failed: false, ..c.src },
                ..c
            };
            Self::s_load(Self::s_show_hint(c1, Hint::Next { season: c.meta.season, episode }, now), lib, now)
        }
    }

    pub open spec fn s_resolve_end<P: Prints>(c: Controller, lib: P, now: u64) -> Out {
        if c.meta.episode >= c.ep.episode_count {
            Self::s_leave(c)
        } else if c.settings.autoplay_next {
            Self::s_play_next(c, lib, now)
        } else if c.src.native_shown {
            (Self::s_show_overlay(Controller { ep: Episodes { next_available: true, ..c.ep }, ..c }, now), seq![], seq![])
        } else {
            (Self::s_show_hint(c, Hint::EpisodeFinished, now), seq![], seq![])
        }
    }

    pub open spec fn s_on_ended<P: Prints>(c: Controller, lib: P, now: u64) -> Out {
        if c.meta.media != MediaType::Tv {
            Self::s_leave(c)
        } else if c.ep.episode_count == 0 {
            let c1 = Controller { ep: Episodes { pending_end: true, ..c.ep }, ..c };
            if !c1.ep.count_requested {
                Self::s_request_count(c1)
            } else {
                (c1, seq![], seq![])
            }
        } else {
            Self::s_resolve_end(c, lib, now)
        }
    }

    /// Progress is written at most every 10 s, or at the end; the end fires once.
    pub open spec fn s_progress<P: Prints>(c: Controller, lib: P, now: u64, epoch: i64) -> Out {
        let p = c.prog.playback;
        if p.duration_ms == 0 {
            (c, seq![], seq![])
        } else {
            let c1 = if p.time_ms > 0 { Controller { prog: Progress { has_playback: true, ..c.prog }, ..c } } else { c };
            let ended = p.ended || (p.time_ms > 0 && p.time_ms as int + 1000 >= p.duration_ms);
            let due = match c1.prog.last_write {
                None => true,
                Some(at) => (if now >= at { now - at } else { 0 }) >= PROGRESS_WRITE_MS,
            };
            let (c2, f2) = if ended || due {
                (
                    Controller { prog: Progress { last_write: Some(now), ..c1.prog }, ..c1 },
                    seq![Effect::SaveProgress(record_spec(c1.meta, p, epoch))],
                )
            } else {
                (c1, seq![])
            };
            if ended && !c2.prog.ended_fired {
                let (c3, f3, k3) = Self::s_on_ended(
                    Controller { prog: Progress { ended_fired: true, ..c2.prog }, ..c2 },
                    lib,
                    now,
                );
                (c3, f2 + f3, k3)
            } else {
                (c2, f2, seq![])
            }
        }
    }

    /// The hint and the overlay hide when their time is up.
    pub open spec fn s_tick_timers(c: Controller, now: u64) -> Controller {
        let c1 = if c.ui.hint is Some && now >= c.ui.hint_hide_at {
            Controller { ui: Ui { hint: None, ..c.ui }, ..c }
        } else {
            c
        };
        if c1.ui.overlay_shown && now >= c1.ui.overlay_hide_at { Self::s_hide_overlay(c1) } else { c1 }
    }

    /// Nothing played by the watchdog's time: the load failed.
    pub open spec fn s_watchdog<P: Prints>(c: Controller, lib: P, now: u64) -> Out {
        match c.src.watchdog_at {
            Some(at) => if now >= at {
                let w = Controller { src: Source { watchdog_at: None, ..c.src }, ..c };
                if !w.prog.has_playback { Self::s_on_load_failed(w, lib, now) } else { (w, seq![], seq![]) }
            } else {
                (c, seq![], seq![])
            },
            None => (c, seq![], seq![]),
        }
    }

    /// Progress is sampled every two seconds while something plays.
    pub open spec fn s_tick_progress<P: Prints>(c: Controller, lib: P, now: u64, epoch: i64) -> Out {
        if now >= c.prog.next_progress_at {
            let c4 = Controller { prog: Progress { next_progress_at: later(now, PROGRESS_TICK_MS), ..c.prog }, ..c };
            if c4.src.native_active || c4.src.page_active {
                Self::s_progress(c4, lib, now, epoch)
            } else {
                (c4, seq![], seq![])
            }
        } else {
            (c, seq![], seq![])
        }
    }

    pub open spec fn s_on_tick<P: Prints>(c: Controller, lib: P, now: u64, epoch: i64) -> Out {
        let (c3, f3, k3) = Self::s_watchdog(Self::s_tick_timers(c, now), lib, now);
        let (c5, f5, k5) = Self::s_tick_progress(c3, lib, now, epoch);
        (c5, f3 + f5, k3 + k5)
    }

    pub open spec fn s_toggle_play(c: Controller) -> Out {
        if c.prog.playback.ended {
            (c, seq![], seq![])
        } else {
            let paused = !c.prog.playback.paused;
            (
                Controller { prog: Progress { playback: Playback { paused, ..c.prog.playback }, ..c.prog }, ..c },
                seq![],
                seq![Command::SetPaused(paused)],
            )
        }
    }

    pub open spec fn s_set_paused(c: Controller, paused: bool) -> Out {
        (
            Controller { prog: Progress { playback: Playback { paused, ..c.prog.playback }, ..c.prog }, ..c },
            seq![],
            seq![Command::SetPaused(paused)],
        )
    }

    pub open spec fn s_seek_hidden(c: Controller, secs: i64, now: u64) -> Out {
        (Self::s_show_hint(c, Hint::Seek(secs), now), seq![], seq![Command::SeekBy(secs)])
    }

    /// Rewind and fast forward move three steps.
    pub open spec fn media_step(c: Controller) -> i64 {
        (c.settings.seek_step_seconds * 3) as i64
    }

    /// An arrow's seek after `repeat` auto-repeats.
    pub open spec fn arrow_step(c: Controller, repeat: u32) -> i64 {
        (c.settings.seek_step_seconds * seek_factor(repeat)) as i64
    }

    /// The volume after one step up or down, within 0 to 130 percent.
    pub open spec fn stepped_volume(volume: u32, up: bool) -> u32 {
        if up {
            if volume as int + VOLUME_STEP as int >= VOLUME_MAX as int { VOLUME_MAX } else { (volume + VOLUME_STEP) as u32 }
        } else {
            if volume >= VOLUME_STEP { (volume - VOLUME_STEP) as u32 } else { 0 }
        }
    }

    pub open spec fn s_adjust_volume(c: Controller, up: bool, now: u64) -> Out {
        let v = Self::stepped_volume(c.ui.volume, up);
        (
            Self::s_show_hint(Controller { ui: Ui { volume: v, ..c.ui }, ..c }, Hint::Volume(v), now),
            seq![],
            seq![Command::SetVolume(v)],
        )
    }

    pub open spec fn s_show_audio_tracks(c: Controller, now: u64) -> Out {
        if audio_of(c.tracks).len() == 0 {
            (c, seq![], seq![])
        } else {
            (Self::s_touch(Controller { ui: Ui { tracks_open: true, ..c.ui }, ..c }, now), seq![], seq![])
        }
    }

    /// Pins the audio option and remembers its language.
    pub open spec fn s_pick_audio(c: Controller, index: usize, now: u64) -> Out {
        if !c.ui.tracks_open {
            (c, seq![], seq![])
        } else {
            let c1 = Controller { ui: Ui { tracks_open: false, ..c.ui }, ..c };
            if index >= audio_of(c.tracks).len() {
                (c1, seq![], seq![])
            } else {
                let t = c.tracks.unwrap();
                let option = t.audio@[index as int];
                let aid = if option.ids@.len() > 0 { Some(option.ids@[0]) } else { None };
                let c2 = Controller { tracks: Some(TrackLists { aid, ..t }), ..c1 };
                let (c3, f3) = match option.language_code {
                    Some(code) => (
                        Controller { settings: Settings { audio_language: Some(code), ..c2.settings }, ..c2 },
                        seq![Effect::SaveAudioLanguage(code)],
                    ),
                    None => (c2, seq![]),
                };
                (
                    Self::s_touch(Self::s_show_hint(c3, Hint::Audio(option.label), now), now),
                    f3,
                    seq![Command::SetAudio(option.ids)],
                )
            }
        }
    }

    /// Steps through off and each subtitle track.
    pub open spec fn s_cycle_subtitles(c: Controller, now: u64) -> Out {
        let subs = subs_of(c.tracks);
        if subs.len() == 0 {
            (Self::s_show_hint(c, Hint::SubtitlesOff, now), seq![], seq![])
        } else {
            let t = c.tracks.unwrap();
            let next = next_sub_pos(subs, t.sid);
            if next >= subs.len() {
                (
                    Self::s_show_hint(Controller { tracks: Some(TrackLists { sid: None, ..t }), ..c }, Hint::SubtitlesOff, now),
                    seq![],
                    seq![Command::SetSubtitle(None)],
                )
            } else {
                let track = subs[next];
                (
                    Self::s_show_hint(
                        Controller { tracks: Some(TrackLists { sid: Some(track.id), ..t }), ..c },
                        Hint::Subtitle(track),
                        now,
                    ),
                    seq![],
                    seq![Command::SetSubtitle(Some(track.id))],
                )
            }
        }
    }

    /// Restarts the library file at the next uploaded print, keeping the position, and
    /// remembers the choice.
    /// Restarts the library file at `next`, keeping the position, and remembers the choice.
    pub open spec fn s_switch_print(c: Controller, next: Entry, now: u64) -> Out {
        let c1 = Controller {
            settings: Settings { quality: Some(next.quality), ..c.settings },
            src: Source { start_at: secs_of(c.prog.playback.time_ms), ..c.src },
            ..c
        };
        let (c2, f2, k2) = Self::s_stop_native(c1);
        let c3 = Self::s_hide_overlay(c2);
        let seq = if c3.src.seq == u64::MAX { 0 } else { (c3.src.seq + 1) as u64 };
        let c4 = Controller {
            src: Source { native_shown: false, library_entry: Some(next), seq, ..c3.src },
            ..c3
        };
        (
            Self::s_show_hint(c4, Hint::Quality(next), now),
            seq![Effect::SaveQuality(next.quality)] + f2 + seq![Effect::PrepareLibrary { seq, entry: next }],
            k2,
        )
    }

    /// Steps to the next uploaded print of what plays.
    pub open spec fn s_cycle_quality<P: Prints>(c: Controller, lib: P, now: u64) -> Out {
        let all = lib.prints_spec(c.meta.key_spec());
        match c.src.library_entry {
            None => (c, seq![], seq![]),
            Some(current) => if all.len() < 2 {
                (c, seq![], seq![])
            } else {
                Self::s_switch_print(c, all[next_print_pos(all, entry_label(current))], now)
            },
        }
    }

    pub open spec fn s_enter_nav(c: Controller, now: u64) -> Out {
        if c.ui.nav_mode || !c.src.page_active {
            (c, seq![], seq![])
        } else {
            (
                Self::s_show_hint(Controller { ui: Ui { nav_mode: true, ..c.ui }, ..c }, Hint::Navigate, now),
                seq![],
                seq![Command::Page(PageAction::EnterNav)],
            )
        }
    }

    pub open spec fn s_on_back(c: Controller) -> Out {
        if c.src.asking {
            Self::s_leave(c)
        } else if c.src.native_shown && c.ui.tracks_open && c.ui.overlay_shown {
            (Controller { ui: Ui { tracks_open: false, ..c.ui }, ..c }, seq![], seq![])
        } else if c.src.native_shown && c.ui.overlay_shown {
            (Self::s_hide_overlay(c), seq![], seq![])
        } else if c.ui.nav_mode {
            (c, seq![], seq![Command::Page(PageAction::ClosePanel)])
        } else {
            Self::s_leave(c)
        }
    }

    /// Media keys work whether or not the overlay is up; while it is up, its focus
    /// navigation owns the arrows and CENTER; otherwise arrows seek and CENTER toggles play.
    pub open spec fn s_native_key<P: Prints>(c: Controller, key: Key, repeat: u32, lib: P, now: u64) -> Out {
        let media = match key {
            Key::PlayPause => Some(Self::s_toggle_play(c)),
            Key::Play => Some(Self::s_set_paused(c, false)),
            Key::Pause => Some(Self::s_set_paused(c, true)),
            Key::Rewind => Some(Self::s_seek_hidden(c, (-Self::media_step(c)) as i64, now)),
            Key::FastForward => Some(Self::s_seek_hidden(c, Self::media_step(c), now)),
            Key::Next => Some(Self::s_play_next(c, lib, now)),
            _ => None,
        };
        match media {
            Some(o) => if o.0.ui.overlay_shown { (Self::s_touch(o.0, now), o.1, o.2) } else { o },
            None => if c.ui.overlay_shown {
                (Self::s_touch(c, now), seq![Effect::PassToOverlay { key, repeat }], seq![])
            } else {
                let step = Self::arrow_step(c, repeat);
                match key {
                    Key::Center => if repeat == 0 {
                        let (c1, f1, k1) = Self::s_toggle_play(c);
                        (Self::s_show_overlay(c1, now), f1, k1)
                    } else {
                        (c, seq![], seq![])
                    },
                    Key::Left => Self::s_seek_hidden(c, (-step) as i64, now),
                    Key::Right => Self::s_seek_hidden(c, step, now),
                    Key::Up | Key::Down => (Self::s_show_overlay(c, now), seq![], seq![]),
                    _ => (c, seq![], seq![]),
                }
            },
        }
    }

    /// Keys while the page player (or nothing) is up.
    pub open spec fn s_page_key<P: Prints>(c: Controller, key: Key, repeat: u32, lib: P, now: u64) -> Out {
        if key == Key::Center {
            if c.src.failed {
                if repeat == 0 { Self::s_manual_reload(c, lib, now) } else { (c, seq![], seq![]) }
            } else {
                let (center, long) = press_down(c.ui.center, repeat, now);
                let c1 = Controller { ui: Ui { center, ..c.ui }, ..c };
                if long && c1.src.page_active && !c1.ui.nav_mode {
                    Self::s_enter_nav(c1, now)
                } else {
                    (c1, seq![], seq![])
                }
            }
        } else if !c.src.page_active {
            (c, seq![], seq![])
        } else if c.ui.nav_mode {
            match nav_action(key) {
                Some(a) => (c, seq![], seq![Command::Page(a)]),
                None => (c, seq![], seq![]),
            }
        } else {
            let step = Self::media_step(c);
            match key {
                Key::PlayPause => (c, seq![], seq![Command::Page(PageAction::Space)]),
                Key::Play => (c, seq![], seq![Command::Page(PageAction::Play)]),
                Key::Pause => (c, seq![], seq![Command::Page(PageAction::Pause)]),
                Key::Left => (c, seq![], seq![Command::Page(PageAction::ArrowLeft)]),
                Key::Right => (c, seq![], seq![Command::Page(PageAction::ArrowRight)]),
                Key::Rewind => (c, seq![], seq![Command::Page(PageAction::Seek((-step) as i64))]),
                Key::FastForward => (c, seq![], seq![Command::Page(PageAction::Seek(step))]),
                Key::Up | Key::Down => Self::s_enter_nav(c, now),
                _ => (c, seq![], seq![]),
            }
        }
    }

    pub open spec fn s_on_key<P: Prints>(c: Controller, key: Key, repeat: u32, lib: P, now: u64) -> Out {
        if key == Key::Back {
            if repeat == 0 { Self::s_on_back(c) } else { (c, seq![], seq![]) }
        } else if c.src.asking {
            (c, seq![], seq![])
        } else if key == Key::Reload {
            if repeat == 0 { Self::s_manual_reload(c, lib, now) } else { (c, seq![], seq![]) }
        } else if key == Key::Menu {
            let (menu, long) = press_down(c.ui.menu, repeat, now);
            let c1 = Controller { ui: Ui { menu, ..c.ui }, ..c };
            if long { Self::s_manual_reload(c1, lib, now) } else { (c1, seq![], seq![]) }
        } else if c.src.native_shown {
            Self::s_native_key(c, key, repeat, lib, now)
        } else {
            Self::s_page_key(c, key, repeat, lib, now)
        }
    }

    /// The release decides between a short and a long press of MENU and CENTER.
    pub open spec fn s_on_key_up(c: Controller, key: Key, now: u64) -> Out {
        if c.src.asking {
            (c, seq![], seq![])
        } else if key == Key::Menu {
            let (menu, short) = press_up(c.ui.menu);
            let c1 = Controller { ui: Ui { menu, ..c.ui }, ..c };
            if !short {
                (c1, seq![], seq![])
            } else if c1.src.native_shown {
                Self::s_cycle_subtitles(c1, now)
            } else if c1.src.page_active {
                let (c2, f2, k2) = Self::s_enter_nav(c1, now);
                (c2, f2, k2 + seq![Command::Page(PageAction::OpenSettings)])
            } else {
                (c1, seq![], seq![])
            }
        } else if key == Key::Center {
            let (center, short) = press_up(c.ui.center);
            let c1 = Controller { ui: Ui { center, ..c.ui }, ..c };
            if short && !c1.src.native_shown && c1.src.page_active {
                (c1, seq![], seq![Command::Page(if c1.ui.nav_mode { PageAction::Activate } else { PageAction::Space })])
            } else {
                (c1, seq![], seq![])
            }
        } else {
            (c, seq![], seq![])
        }
    }

    pub open spec fn s_on_button<P: Prints>(c: Controller, button: Button, lib: P, now: u64) -> Out {
        if !c.src.native_shown {
            if button == Button::Back { Self::s_leave(c) } else { (c, seq![], seq![]) }
        } else {
            let step = c.settings.seek_step_seconds as i64;
            match button {
                Button::Back => Self::s_leave(c),
                Button::Next => Self::s_play_next(c, lib, now),
                _ => {
                    let o = match button {
                        Button::PlayPause => Self::s_toggle_play(c),
                        Button::Rewind => (c, seq![], seq![Command::SeekBy((-step) as i64)]),
                        Button::Forward => (c, seq![], seq![Command::SeekBy(step)]),
                        Button::VolumeDown => Self::s_adjust_volume(c, false, now),
                        Button::VolumeUp => Self::s_adjust_volume(c, true, now),
                        Button::Audio => Self::s_show_audio_tracks(c, now),
                        Button::Subtitles => Self::s_cycle_subtitles(c, now),
                        _ => Self::s_cycle_quality(c, lib, now),
                    };
                    (Self::s_touch(o.0, now), o.1, o.2)
                },
            }
        }
    }

    /// The ASK dialog answered: resuming keeps the saved position, starting over drops it.
    pub open spec fn s_resume<P: Prints>(c: Controller, resume: bool, lib: P, now: u64) -> Out {
        if !c.src.asking {
            (c, seq![], seq![])
        } else {
            let at = if resume { c.src.start_at } else { 0 };
            Self::s_load(Controller { src: Source { asking: false, start_at: at, ..c.src }, ..c }, lib, now)
        }
    }

    pub open spec fn s_episode_count<P: Prints>(c: Controller, n: u32, lib: P, now: u64) -> Out {
        let c1 = Controller {
            ep: Episodes {
                episode_count: n,
                count_requested: false,
                next_available: c.meta.media == MediaType::Tv && c.meta.episode < n,
                ..c.ep
            },
            ..c
        };
        if c1.ep.pending_end {
            Self::s_resolve_end(Controller { ep: Episodes { pending_end: false, ..c1.ep }, ..c1 }, lib, now)
        } else {
            (c1, seq![], seq![])
        }
    }

    pub open spec fn s_on_playback<P: Prints>(c: Controller, p: Playback, lib: P, now: u64, epoch: i64) -> Out {
        let c1 = Controller {
            prog: Progress {
                playback: p,
                has_playback: c.prog.has_playback || (p.duration_ms > 0 && p.time_ms > 0),
                ..c.prog
            },
            ..c
        };
        if p.ended {
            Self::s_progress(c1, lib, now, epoch)
        } else {
            (c1, seq![], seq![])
        }
    }

    pub open spec fn s_page_ready(c: Controller) -> Out {
        if !c.src.page_active {
            (c, seq![], seq![])
        } else {
            let k1: Seq<Command> = if c.src.start_at > 0 {
                seq![Command::Page(PageAction::ApplyStart(c.src.start_at))]
            } else {
                seq![]
            };
            let k2: Seq<Command> = if c.settings.speed_percent != 100 {
                seq![Command::Page(PageAction::ApplySpeed(c.settings.speed_percent))]
            } else {
                seq![]
            };
            (c, seq![], k1 + k2)
        }
    }

    /// What one input does to a controller that has not exited.
    pub open spec fn s_dispatch<P: Prints>(c: Controller, input: Input, lib: P, now: u64, epoch: i64) -> Out {
        match input {
            Input::Key { key, repeat } => Self::s_on_key(c, key, repeat, lib, now),
            Input::KeyUp(key) => Self::s_on_key_up(c, key, now),
            Input::Button(b) => Self::s_on_button(c, b, lib, now),
            Input::ScrubBy { forward, repeat } => if c.src.native_shown {
                let step = Self::arrow_step(c, repeat);
                (
                    Self::s_touch(c, now),
                    seq![],
                    seq![Command::SeekBy(if forward { step } else { (-step) as i64 })],
                )
            } else {
                (c, seq![], seq![])
            },
            Input::ScrubTo(ms) => if c.src.native_shown {
                (Self::s_touch(c, now), seq![], seq![Command::SeekTo(ms)])
            } else {
                (c, seq![], seq![])
            },
            Input::PickTrack(i) => Self::s_pick_audio(c, i, now),
            Input::MouseMove => if c.src.native_shown {
                (Self::s_show_overlay(c, now), seq![], seq![])
            } else {
                (c, seq![], seq![])
            },
            Input::VideoClick => if c.src.native_shown {
                let (c1, f1, k1) = Self::s_toggle_play(c);
                (if c1.ui.overlay_shown { Self::s_touch(c1, now) } else { c1 }, f1, k1)
            } else {
                (c, seq![], seq![])
            },
            Input::Resume(resume) => Self::s_resume(c, resume, lib, now),
            Input::Tick => Self::s_on_tick(c, lib, now, epoch),
            Input::LibraryPrepared { seq, subtitle } => if seq == c.src.seq {
                Self::s_start_library(c, subtitle)
            } else {
                (c, seq![], seq![])
            },
            Input::Sniffed { seq, result } => if seq == c.src.seq {
                Self::s_start_url(c, result)
            } else {
                (c, seq![], seq![])
            },
            Input::SniffFailed { seq } => if seq == c.src.seq && !c.src.native_active {
                Self::s_on_load_failed(c, lib, now)
            } else {
                (c, seq![], seq![])
            },
            Input::EpisodeCount(n) => Self::s_episode_count(c, n, lib, now),
            Input::FileLoaded { duration_ms } => Self::s_on_file_loaded(c, duration_ms),
            Input::FirstFrame => Self::s_on_first_frame(c),
            Input::Playback(p) => Self::s_on_playback(c, p, lib, now, epoch),
            Input::Tracks { audio, subs, aid, sid } => (
                Controller { tracks: Some(TrackLists { audio, subs, aid, sid }), ..c },
                seq![],
                seq![],
            ),
            Input::EngineError(_) => Self::s_on_engine_error(c, lib, now),
            Input::PageReady => Self::s_page_ready(c),
            Input::PageFailed => if c.src.page_active {
                Self::s_on_load_failed(c, lib, now)
            } else {
                (c, seq![], seq![])
            },
            Input::PagePanelClosed(closed) => if !closed {
                Self::s_exit_nav(c)
            } else {
                (c, seq![], seq![])
            },
        }
    }

    /// One step: an exited controller ignores every input.
    pub open spec fn s_step<P: Prints>(c: Controller, input: Input, lib: P, now: u64, epoch: i64) -> Out {
        if c.src.exited {
            (c, seq![], seq![])
        } else {
            Self::s_dispatch(c, input, lib, now, epoch)
        }
    }

    /// Opening the player: ALWAYS resumes, NEVER starts over, ASK shows the dialog.
    pub open spec fn s_start<P: Prints>(c: Controller, lib: P, now: u64) -> Out {
        if c.src.start_at == 0 {
            Self::s_load(c, lib, now)
        } else {
            match c.settings.resume_mode {
                ResumeMode::Never => Self::s_load(Controller { src: Source { start_at: 0, ..c.src }, ..c }, lib, now),
                ResumeMode::Ask => (Controller { src: Source { asking: true, ..c.src }, ..c }, seq![], seq![]),
                ResumeMode::Always => Self::s_load(c, lib, now),
            }
        }
    }
}

/// A copy of the track ids.
fn copy_ids(v: &Vec<i64>) -> (r: Vec<i64>)
    ensures
        r@ == v@,
{
    let mut out: Vec<i64> = Vec::new();
    let mut i: usize = 0;
    while i < v.len()
        invariant
            i <= v@.len(),
            out@ == v@.take(i as int),
        decreases v@.len() - i,
    {
        out.push(v[i]);
        i = i + 1;
    }
    assert(v@.take(v@.len() as int) == v@);
    out
}

/// The next load sequence number.
fn next_seq(seq: u64) -> (r: u64)
    ensures
        r == (if seq == u64::MAX { 0 } else { (seq + 1) as u64 }),
{
    if seq == u64::MAX {
        0
    } else {
        seq + 1
    }
}

impl Controller {
    fn reset_bridge(&mut self)
        ensures
            *final(self) == Self::s_reset_bridge(*old(self)),
    {
        self.prog.playback = Playback { time_ms: 0, duration_ms: 0, paused: false, ended: false };
        self.prog.has_playback = false;
        self.prog.ended_fired = false;
        self.prog.last_write = None;
    }

    fn exit_nav(&mut self, io: &mut Output)
        ensures
            did(Self::s_exit_nav(*old(self)), *final(self), *old(io), *final(io)),
    {
        if self.ui.nav_mode {
            self.ui.nav_mode = false;
            self.ui.hint = None;
            io.commands.push(Command::Page(PageAction::ExitNav));
        }
    }

    fn stop_native(&mut self, io: &mut Output)
        ensures
            did(Self::s_stop_native(*old(self)), *final(self), *old(io), *final(io)),
    {
        self.src.native_active = false;
        self.tracks = None;
        io.commands.push(Command::Stop);
    }

    fn hide_overlay(&mut self)
        ensures
            *final(self) == Self::s_hide_overlay(*old(self)),
    {
        self.ui.tracks_open = false;
        self.ui.overlay_shown = false;
    }

    fn touch(&mut self, now: u64)
        ensures
            *final(self) == Self::s_touch(*old(self), now),
    {
        self.ui.overlay_hide_at = later_exec(now, self.settings.overlay_hide_ms as u64);
    }

    fn show_hint(&mut self, h: Hint, now: u64)
        ensures
            *final(self) == Self::s_show_hint(*old(self), h, now),
    {
        self.ui.hint = Some(h);
        self.ui.hint_hide_at = later_exec(now, HINT_MS);
    }

    fn show_overlay(&mut self, now: u64)
        ensures
            *final(self) == Self::s_show_overlay(*old(self), now),
    {
        self.ui.overlay_shown = true;
        self.touch(now);
    }

    fn request_count(&mut self, io: &mut Output)
        ensures
            did(Self::s_request_count(*old(self)), *final(self), *old(io), *final(io)),
    {
        self.ep.count_requested = true;
        io.effects.push(Effect::FetchEpisodeCount { tmdb: self.meta.id, season: self.meta.season });
    }

    fn refresh_next(&mut self, io: &mut Output)
        ensures
            did(Self::s_refresh_next(*old(self)), *final(self), *old(io), *final(io)),
    {
        let tv = self.meta.media == MediaType::Tv;
        self.ep.next_available = tv && self.meta.episode < self.ep.episode_count;
        if tv && self.ep.episode_count == 0 && !self.ep.count_requested {
            self.request_count(io);
        }
    }

    /// The print the library plays first: the preferred quality when uploaded, else the
    /// highest.
    fn default_print<P: Prints>(&self, lib: &P) -> (r: Option<Entry>)
        ensures
            r == default_print_spec(lib.prints_spec(self.meta.key_spec()), Self::preferred_quality(*self)),
    {
        let all = lib.prints(self.meta.key());
        let preferred = match &self.settings.quality {
            Some(q) => q.clone(),
            None => crate::text::owned(""),
        };
        proof {
            reveal_strlit("");
            assert(preferred@ == Self::preferred_quality(*self));
        }
        let mut i: usize = 0;
        while i < all.len()
            invariant
                i <= all@.len(),
                all@ == lib.prints_spec(self.meta.key_spec()),
                preferred@ == Self::preferred_quality(*self),
                forall|j: int| 0 <= j < i ==> (#[trigger] all@[j]).quality@ != preferred@,
            decreases all@.len() - i,
        {
            if all[i].quality == preferred {
                let ghost k = i as int;
                assert(all@[k].quality@ == preferred@);
                assert(exists|x: int| 0 <= x < all@.len() && (#[trigger] all@[x]).quality@ == preferred@);
                let ghost f = first_quality(all@, preferred@);
                assert(0 <= f < all@.len() && all@[f].quality@ == preferred@ && forall|j: int|
                    0 <= j < f ==> (#[trigger] all@[j]).quality@ != preferred@);
                assert(f == k) by {
                    if f < k {
                        assert(all@[f].quality@ != preferred@);
                    } else if f > k {
                        assert(all@[k].quality@ != preferred@);
                    }
                }
                return Some(all[i].duplicate());
            }
            i = i + 1;
        }
        if all.len() > 0 {
            Some(all[0].duplicate())
        } else {
            None
        }
    }

    fn load_begin(&mut self, io: &mut Output)
        ensures
            did(Self::s_load_begin(*old(self)), *final(self), *old(io), *final(io)),
    {
        let ghost io0 = *io;
        self.reset_bridge();
        let ghost c1 = *self;
        self.exit_nav(io);
        let ghost c2 = *self;
        let ghost io1 = *io;
        self.stop_native(io);
        let ghost io2 = *io;
        proof {
            lemma_then(Self::s_exit_nav(c1), Self::s_stop_native(c2), *self, io0, io1, io2);
        }
        let ghost ab = (Self::s_stop_native(c2).0, Self::s_exit_nav(c1).1 + Self::s_stop_native(c2).1, Self::s_exit_nav(c1).2 + Self::s_stop_native(c2).2);
        self.hide_overlay();
        self.src.native_shown = false;
        self.src.failed = false;
        let ghost c4 = *self;
        self.refresh_next(io);
        proof {
            lemma_then(ab, Self::s_refresh_next(c4), *self, io0, io2, *io);
        }
    }

    fn load_pick<P: Prints>(&mut self, io: &mut Output, lib: &P, now: u64)
        ensures
            did(Self::s_load_pick(*old(self), *lib, now), *final(self), *old(io), *final(io)),
    {
        let seq = next_seq(self.src.seq);
        let entry = if self.src.library_failed || !lib.ready() {
            None
        } else {
            self.default_print(lib)
        };
        self.src.watchdog_at = None;
        self.src.seq = seq;
        self.src.playing_library = entry.is_some();
        self.src.library_entry = copy_entry(&entry);
        match entry {
            Some(e) => {
                if self.src.page_active {
                    self.src.page_active = false;
                    io.commands.push(Command::PageClose);
                }
                io.effects.push(Effect::PrepareLibrary { seq, entry: e });
            },
            None => {
                self.src.watchdog_at = Some(later_exec(now, WATCHDOG_MS));
                let page = PageUrl { key: self.meta.key(), start_at: self.src.start_at };
                if self.src.native_allowed {
                    io.effects.push(Effect::Sniff { seq, page });
                } else {
                    self.src.page_active = true;
                    io.commands.push(Command::PageLoad(page));
                }
            },
        }
    }

    fn load<P: Prints>(&mut self, io: &mut Output, lib: &P, now: u64)
        ensures
            did(Self::s_load(*old(self), *lib, now), *final(self), *old(io), *final(io)),
    {
        let ghost c0 = *self;
        let ghost io0 = *io;
        self.load_begin(io);
        let ghost io1 = *io;
        self.load_pick(io, lib, now);
        proof {
            reveal(Controller::s_load);
            let a = Self::s_load_begin(c0);
            lemma_then(a, Self::s_load_pick(a.0, *lib, now), *self, io0, io1, *io);
        }
    }

    fn after_native_load(&mut self, io: &mut Output)
        ensures
            did(Self::s_after_native_load(*old(self)), *final(self), *old(io), *final(io)),
    {
        self.src.native_active = true;
        io.commands.push(Command::SetSpeed(self.settings.speed_percent));
        if self.ui.volume != 100 {
            io.commands.push(Command::SetVolume(self.ui.volume));
        }
    }

    fn start_library(&mut self, io: &mut Output, subtitle: Option<String>)
        ensures
            did(Self::s_start_library(*old(self), subtitle), *final(self), *old(io), *final(io)),
    {
        let entry = copy_entry(&self.src.library_entry);
        match entry {
            None => {},
            Some(e) => {
                self.src.start_applied = false;
                io.commands.push(Command::LoadLibrary { entry: e, subtitle, start: self.src.start_at });
                self.after_native_load(io);
            },
        }
    }

    fn start_url(&mut self, io: &mut Output, result: SniffResult)
        ensures
            did(Self::s_start_url(*old(self), result), *final(self), *old(io), *final(io)),
    {
        if !self.src.native_allowed || self.src.native_active || self.src.page_active {
            return;
        }
        let secs = secs_of_exec(self.prog.playback.time_ms);
        let at = if self.src.start_at >= secs { self.src.start_at } else { secs };
        let preferred = match &self.settings.subtitle_language {
            Some(l) => l.clone(),
            None => self.ui_language.clone(),
        };
        self.src.start_at = at;
        self.src.start_applied = false;
        io.commands.push(Command::LoadUrl { result, preferred, start: at });
        self.after_native_load(io);
    }

    fn on_file_loaded(&mut self, io: &mut Output, duration_ms: u64)
        ensures
            did(Self::s_on_file_loaded(*old(self), duration_ms), *final(self), *old(io), *final(io)),
    {
        if !self.src.native_active || self.src.start_applied {
            return;
        }
        self.src.start_applied = true;
        let start: u64 = self.src.start_at as u64 * 1000;
        if self.src.start_at > 0 && (duration_ms == 0 || start + START_END_MARGIN_MS < duration_ms) {
            io.commands.push(Command::SeekTo(start));
        }
    }

    fn on_first_frame(&mut self, io: &mut Output)
        ensures
            did(Self::s_on_first_frame(*old(self)), *final(self), *old(io), *final(io)),
    {
        if self.src.native_shown || !self.src.native_active {
            return;
        }
        self.src.native_shown = true;
        self.src.watchdog_at = None;
        self.exit_nav(io);
    }

    fn leave(&mut self, io: &mut Output)
        ensures
            did(Self::s_leave(*old(self)), *final(self), *old(io), *final(io)),
    {
        self.stop_native(io);
        if self.src.page_active {
            self.src.page_active = false;
            io.commands.push(Command::PageClose);
        }
        self.src.exited = true;
        io.effects.push(Effect::Exit);
    }

    fn show_failed(&mut self, io: &mut Output)
        ensures
            did(Self::s_show_failed(*old(self)), *final(self), *old(io), *final(io)),
    {
        self.src.watchdog_at = None;
        self.src.failed = true;
        if self.src.page_active {
            self.src.page_active = false;
            io.commands.push(Command::PageClose);
        }
    }

    fn reload<P: Prints>(&mut self, io: &mut Output, lib: &P, now: u64)
        ensures
            did(Self::s_reload(*old(self), *lib, now), *final(self), *old(io), *final(io)),
    {
        let secs = secs_of_exec(self.prog.playback.time_ms);
        if secs > self.src.start_at {
            self.src.start_at = secs;
        }
        self.show_hint(Hint::Reloading, now);
        self.load(io, lib, now);
    }

    fn manual_reload<P: Prints>(&mut self, io: &mut Output, lib: &P, now: u64)
        ensures
            did(Self::s_manual_reload(*old(self), *lib, now), *final(self), *old(io), *final(io)),
    {
        self.src.retried = false;
        self.reload(io, lib, now);
    }

    fn on_load_failed<P: Prints>(&mut self, io: &mut Output, lib: &P, now: u64)
        ensures
            did(Self::s_on_load_failed(*old(self), *lib, now), *final(self), *old(io), *final(io)),
    {
        if self.src.retried {
            self.show_failed(io);
        } else {
            self.src.retried = true;
            self.reload(io, lib, now);
        }
    }

    fn drop_source(&mut self, at: u32, now: u64)
        ensures
            *final(self) == Self::s_drop_source(*old(self), at, now),
    {
        if self.src.playing_library {
            self.src.library_failed = true;
        } else {
            self.src.native_allowed = false;
        }
        if at > self.src.start_at {
            self.src.start_at = at;
        }
        if self.src.native_shown {
            self.show_hint(Hint::Reloading, now);
        }
    }

    fn on_engine_error<P: Prints>(&mut self, io: &mut Output, lib: &P, now: u64)
        ensures
            did(Self::s_on_engine_error(*old(self), *lib, now), *final(self), *old(io), *final(io)),
    {
        if !self.src.native_active {
            return;
        }
        let ghost c0 = *self;
        let ghost io0 = *io;
        let at = secs_of_exec(self.prog.playback.time_ms);
        self.stop_native(io);
        let ghost io1 = *io;
        self.drop_source(at, now);
        let ghost c4 = *self;
        self.load(io, lib, now);
        proof {
            lemma_then(Self::s_stop_native(c0), Self::s_load(c4, *lib, now), *self, io0, io1, *io);
        }
    }

    fn play_next<P: Prints>(&mut self, io: &mut Output, lib: &P, now: u64)
        ensures
            did(Self::s_play_next(*old(self), *lib, now), *final(self), *old(io), *final(io)),
    {
        if self.meta.media != MediaType::Tv || self.meta.episode >= self.ep.episode_count {
            return;
        }
        let episode = self.meta.episode + 1;
        self.meta.episode = episode;
        self.src.start_at = 0;
        self.src.retried = false;
        self.src.library_failed = false;
        self.show_hint(Hint::Next { season: self.meta.season, episode }, now);
        self.load(io, lib, now);
    }

    fn resolve_end<P: Prints>(&mut self, io: &mut Output, lib: &P, now: u64)
        ensures
            did(Self::s_resolve_end(*old(self), *lib, now), *final(self), *old(io), *final(io)),
    {
        if self.meta.episode >= self.ep.episode_count {
            self.leave(io);
        } else if self.settings.autoplay_next {
            self.play_next(io, lib, now);
        } else if self.src.native_shown {
            self.ep.next_available = true;
            self.show_overlay(now);
        } else {
            self.show_hint(Hint::EpisodeFinished, now);
        }
    }

    fn on_ended<P: Prints>(&mut self, io: &mut Output, lib: &P, now: u64)
        ensures
            did(Self::s_on_ended(*old(self), *lib, now), *final(self), *old(io), *final(io)),
    {
        if self.meta.media != MediaType::Tv {
            self.leave(io);
        } else if self.ep.episode_count == 0 {
            self.ep.pending_end = true;
            if !self.ep.count_requested {
                self.request_count(io);
            }
        } else {
            self.resolve_end(io, lib, now);
        }
    }

    fn record(&self, p: Playback, epoch: i64) -> (r: ProgressRecord)
        ensures
            r == record_spec(self.meta, p, epoch),
    {
        ProgressRecord {
            id: self.meta.id,
            media: self.meta.media,
            title: self.meta.title.clone(),
            poster: copy_opt(&self.meta.poster),
            watched: secs_of_exec(p.time_ms),
            duration: secs_of_exec(p.duration_ms),
            season: self.meta.season,
            episode: self.meta.episode,
            updated: epoch,
        }
    }

    fn progress<P: Prints>(&mut self, io: &mut Output, lib: &P, now: u64, epoch: i64)
        ensures
            did(Self::s_progress(*old(self), *lib, now, epoch), *final(self), *old(io), *final(io)),
    {
        let p = self.prog.playback;
        if p.duration_ms == 0 {
            return;
        }
        if p.time_ms > 0 {
            self.prog.has_playback = true;
        }
        let ended = p.ended || (p.time_ms > 0 && (p.duration_ms <= 1000 || p.time_ms >= p.duration_ms - 1000));
        let due = match self.prog.last_write {
            None => true,
            Some(at) => now.saturating_sub(at) >= PROGRESS_WRITE_MS,
        };
        if ended || due {
            self.prog.last_write = Some(now);
            let rec = self.record(p, epoch);
            io.effects.push(Effect::SaveProgress(rec));
        }
        if ended && !self.prog.ended_fired {
            self.prog.ended_fired = true;
            self.on_ended(io, lib, now);
        }
    }

    fn tick_timers(&mut self, now: u64)
        ensures
            *final(self) == Self::s_tick_timers(*old(self), now),
    {
        if self.ui.hint.is_some() && now >= self.ui.hint_hide_at {
            self.ui.hint = None;
        }
        if self.ui.overlay_shown && now >= self.ui.overlay_hide_at {
            self.hide_overlay();
        }
    }

    fn watchdog<P: Prints>(&mut self, io: &mut Output, lib: &P, now: u64)
        ensures
            did(Self::s_watchdog(*old(self), *lib, now), *final(self), *old(io), *final(io)),
    {
        match self.src.watchdog_at {
            Some(at) => {
                if now >= at {
                    self.src.watchdog_at = None;
                    if !self.prog.has_playback {
                        self.on_load_failed(io, lib, now);
                    }
                }
            },
            None => {},
        }
    }

    fn tick_progress<P: Prints>(&mut self, io: &mut Output, lib: &P, now: u64, epoch: i64)
        ensures
            did(Self::s_tick_progress(*old(self), *lib, now, epoch), *final(self), *old(io), *final(io)),
    {
        if now >= self.prog.next_progress_at {
            self.prog.next_progress_at = later_exec(now, PROGRESS_TICK_MS);
            if self.src.native_active || self.src.page_active {
                self.progress(io, lib, now, epoch);
            }
        }
    }

    fn on_tick<P: Prints>(&mut self, io: &mut Output, lib: &P, now: u64, epoch: i64)
        ensures
            did(Self::s_on_tick(*old(self), *lib, now, epoch), *final(self), *old(io), *final(io)),
    {
        let ghost io0 = *io;
        self.tick_timers(now);
        let ghost c2 = *self;
        self.watchdog(io, lib, now);
        let ghost c3 = *self;
        let ghost io1 = *io;
        self.tick_progress(io, lib, now, epoch);
        proof {
            lemma_then(Self::s_watchdog(c2, *lib, now), Self::s_tick_progress(c3, *lib, now, epoch), *self, io0, io1, *io);
        }
    }

    fn toggle_play(&mut self, io: &mut Output)
        ensures
            did(Self::s_toggle_play(*old(self)), *final(self), *old(io), *final(io)),
    {
        if self.prog.playback.ended {
            return;
        }
        let paused = !self.prog.playback.paused;
        self.prog.playback.paused = paused;
        io.commands.push(Command::SetPaused(paused));
    }

    fn set_paused(&mut self, io: &mut Output, paused: bool)
        ensures
            did(Self::s_set_paused(*old(self), paused), *final(self), *old(io), *final(io)),
    {
        self.prog.playback.paused = paused;
        io.commands.push(Command::SetPaused(paused));
    }

    fn seek_hidden(&mut self, io: &mut Output, secs: i64, now: u64)
        ensures
            did(Self::s_seek_hidden(*old(self), secs, now), *final(self), *old(io), *final(io)),
    {
        io.commands.push(Command::SeekBy(secs));
        self.show_hint(Hint::Seek(secs), now);
    }

    fn media_step_exec(&self) -> (r: i64)
        ensures
            r == Self::media_step(*self),
            0 <= r <= 3 * u32::MAX,
    {
        self.settings.seek_step_seconds as i64 * 3
    }

    fn arrow_step_exec(&self, repeat: u32) -> (r: i64)
        ensures
            r == Self::arrow_step(*self, repeat),
            0 <= r <= 6 * u32::MAX,
    {
        let f: i64 = if repeat <= 3 {
            1
        } else if repeat <= 9 {
            3
        } else {
            6
        };
        let s = self.settings.seek_step_seconds as i64;
        assert(0 <= s * f <= 6 * u32::MAX) by (nonlinear_arith)
            requires
                0 <= s <= u32::MAX,
                1 <= f <= 6,
        ;
        s * f
    }

    fn adjust_volume(&mut self, io: &mut Output, up: bool, now: u64)
        ensures
            did(Self::s_adjust_volume(*old(self), up, now), *final(self), *old(io), *final(io)),
    {
        let v = if up {
            if self.ui.volume >= VOLUME_MAX - VOLUME_STEP {
                VOLUME_MAX
            } else {
                self.ui.volume + VOLUME_STEP
            }
        } else if self.ui.volume >= VOLUME_STEP {
            self.ui.volume - VOLUME_STEP
        } else {
            0
        };
        self.ui.volume = v;
        io.commands.push(Command::SetVolume(v));
        self.show_hint(Hint::Volume(v), now);
    }

    fn audio_count(&self) -> (r: usize)
        ensures
            r == audio_of(self.tracks).len(),
    {
        match &self.tracks {
            Some(t) => t.audio.len(),
            None => 0,
        }
    }

    fn sub_count(&self) -> (r: usize)
        ensures
            r == subs_of(self.tracks).len(),
    {
        match &self.tracks {
            Some(t) => t.subs.len(),
            None => 0,
        }
    }

    fn show_audio_tracks(&mut self, now: u64)
        ensures
            Self::s_show_audio_tracks(*old(self), now) == (*final(self), Seq::<Effect>::empty(), Seq::<Command>::empty()),
    {
        if self.audio_count() == 0 {
            return;
        }
        self.ui.tracks_open = true;
        self.touch(now);
    }

    fn pick_audio(&mut self, io: &mut Output, index: usize, now: u64)
        ensures
            did_alike(Self::s_pick_audio(*old(self), index, now), *final(self), *old(io), *final(io)),
    {
        if !self.ui.tracks_open {
            return;
        }
        self.ui.tracks_open = false;
        if index >= self.audio_count() {
            return;
        }
        let mut t = self.tracks.take().unwrap();
        let ids = copy_ids(&t.audio[index].ids);
        let label = t.audio[index].label.clone();
        let code = copy_opt(&t.audio[index].language_code);
        let aid = if t.audio[index].ids.len() > 0 {
            Some(t.audio[index].ids[0])
        } else {
            None
        };
        t.aid = aid;
        self.tracks = Some(t);
        match code {
            Some(c) => {
                self.settings.audio_language = Some(c.clone());
                io.effects.push(Effect::SaveAudioLanguage(c));
            },
            None => {},
        }
        self.show_hint(Hint::Audio(label), now);
        self.touch(now);
        io.commands.push(Command::SetAudio(ids));
    }

    fn cycle_subtitles(&mut self, io: &mut Output, now: u64)
        ensures
            did(Self::s_cycle_subtitles(*old(self), now), *final(self), *old(io), *final(io)),
    {
        if self.sub_count() == 0 {
            self.show_hint(Hint::SubtitlesOff, now);
            return;
        }
        let mut t = self.tracks.take().unwrap();
        let ghost subs = t.subs@;
        let mut next: usize = 0;
        match t.sid {
            Some(id) => {
                let mut i: usize = 0;
                while i < t.subs.len() && t.subs[i].id != id
                    invariant
                        i <= subs.len(),
                        subs == t.subs@,
                        forall|j: int| 0 <= j < i ==> (#[trigger] subs[j]).id != id,
                    decreases subs.len() - i,
                {
                    i = i + 1;
                }
                if i < t.subs.len() {
                    let ghost k = i as int;
                    assert(subs[k].id == id);
                    assert(exists|x: int| 0 <= x < subs.len() && (#[trigger] subs[x]).id == id);
                    let ghost f = sub_pos(subs, id);
                    assert(0 <= f < subs.len() && subs[f].id == id && forall|j: int|
                        0 <= j < f ==> (#[trigger] subs[j]).id != id);
                    assert(f == k) by {
                        if f < k {
                            assert(subs[f].id != id);
                        } else if f > k {
                            assert(subs[k].id != id);
                        }
                    }
                    next = i + 1;
                }
            },
            None => {},
        }
        if next >= t.subs.len() {
            t.sid = None;
            self.tracks = Some(t);
            io.commands.push(Command::SetSubtitle(None));
            self.show_hint(Hint::SubtitlesOff, now);
        } else {
            let track = t.subs[next].duplicate();
            let id = track.id;
            t.sid = Some(id);
            self.tracks = Some(t);
            io.commands.push(Command::SetSubtitle(Some(id)));
            self.show_hint(Hint::Subtitle(track), now);
        }
    }

    fn cycle_quality<P: Prints>(&mut self, io: &mut Output, lib: &P, now: u64)
        ensures
            did(Self::s_cycle_quality(*old(self), *lib, now), *final(self), *old(io), *final(io)),
    {
        let current = match &self.src.library_entry {
            Some(e) => e.duplicate(),
            None => {
                return;
            },
        };
        let all = lib.prints(self.meta.key());
        if all.len() < 2 {
            return;
        }
        let label = current.label();
        let mut i: usize = 0;
        while i < all.len() && all[i].label() != label
            invariant
                i <= all@.len(),
                label@ == entry_label(current),
                forall|j: int| 0 <= j < i ==> entry_label(#[trigger] all@[j]) != label@,
            decreases all@.len() - i,
        {
            i = i + 1;
        }
        let pos = if i < all.len() {
            let ghost k = i as int;
            proof {
                assert(entry_label(all@[k]) == label@);
                assert(exists|x: int| 0 <= x < all@.len() && entry_label(#[trigger] all@[x]) == label@);
                let f = label_pos(all@, label@);
                assert(0 <= f < all@.len() && entry_label(all@[f]) == label@ && forall|j: int|
                    0 <= j < f ==> entry_label(#[trigger] all@[j]) != label@);
                assert(f == k) by {
                    if f < k {
                        assert(entry_label(all@[f]) != label@);
                    } else if f > k {
                        assert(entry_label(all@[k]) != label@);
                    }
                }
            }
            (i + 1) % all.len()
        } else {
            0
        };
        let next = all[pos].duplicate();
        self.switch_print(io, next, now);
    }

    #[verifier::spinoff_prover]
    #[verifier::rlimit(30)]
    fn switch_print(&mut self, io: &mut Output, next: Entry, now: u64)
        ensures
            did(Self::s_switch_print(*old(self), next, now), *final(self), *old(io), *final(io)),
    {
        self.settings.quality = Some(next.quality.clone());
        self.src.start_at = secs_of_exec(self.prog.playback.time_ms);
        io.effects.push(Effect::SaveQuality(next.quality.clone()));
        self.stop_native(io);
        self.hide_overlay();
        let seq = next_seq(self.src.seq);
        self.src.native_shown = false;
        self.src.library_entry = Some(next.duplicate());
        self.src.seq = seq;
        self.show_hint(Hint::Quality(next.duplicate()), now);
        io.effects.push(Effect::PrepareLibrary { seq, entry: next });
    }

    fn enter_nav(&mut self, io: &mut Output, now: u64)
        ensures
            did(Self::s_enter_nav(*old(self), now), *final(self), *old(io), *final(io)),
    {
        if self.ui.nav_mode || !self.src.page_active {
            return;
        }
        self.ui.nav_mode = true;
        io.commands.push(Command::Page(PageAction::EnterNav));
        self.show_hint(Hint::Navigate, now);
    }

    fn on_back(&mut self, io: &mut Output)
        ensures
            did(Self::s_on_back(*old(self)), *final(self), *old(io), *final(io)),
    {
        if self.src.asking {
            self.leave(io);
        } else if self.src.native_shown && self.ui.tracks_open && self.ui.overlay_shown {
            self.ui.tracks_open = false;
        } else if self.src.native_shown && self.ui.overlay_shown {
            self.hide_overlay();
        } else if self.ui.nav_mode {
            io.commands.push(Command::Page(PageAction::ClosePanel));
        } else {
            self.leave(io);
        }
    }

    fn native_key<P: Prints>(&mut self, io: &mut Output, key: Key, repeat: u32, lib: &P, now: u64)
        ensures
            did(Self::s_native_key(*old(self), key, repeat, *lib, now), *final(self), *old(io), *final(io)),
    {
        let media = match key {
            Key::PlayPause | Key::Play | Key::Pause | Key::Rewind | Key::FastForward | Key::Next => true,
            _ => false,
        };
        if media {
            match key {
                Key::PlayPause => self.toggle_play(io),
                Key::Play => self.set_paused(io, false),
                Key::Pause => self.set_paused(io, true),
                Key::Rewind => {
                    let s = self.media_step_exec();
                    self.seek_hidden(io, -s, now);
                },
                Key::FastForward => {
                    let s = self.media_step_exec();
                    self.seek_hidden(io, s, now);
                },
                _ => self.play_next(io, lib, now),
            }
            if self.ui.overlay_shown {
                self.touch(now);
            }
            return;
        }
        if self.ui.overlay_shown {
            self.touch(now);
            io.effects.push(Effect::PassToOverlay { key, repeat });
            return;
        }
        let step = self.arrow_step_exec(repeat);
        match key {
            Key::Center => {
                if repeat == 0 {
                    self.toggle_play(io);
                    self.show_overlay(now);
                }
            },
            Key::Left => self.seek_hidden(io, -step, now),
            Key::Right => self.seek_hidden(io, step, now),
            Key::Up | Key::Down => self.show_overlay(now),
            _ => {},
        }
    }

    fn page_key<P: Prints>(&mut self, io: &mut Output, key: Key, repeat: u32, lib: &P, now: u64)
        ensures
            did(Self::s_page_key(*old(self), key, repeat, *lib, now), *final(self), *old(io), *final(io)),
    {
        if key == Key::Center {
            if self.src.failed {
                if repeat == 0 {
                    self.manual_reload(io, lib, now);
                }
            } else {
                let long = self.ui.center.down(repeat, now);
                if long && self.src.page_active && !self.ui.nav_mode {
                    self.enter_nav(io, now);
                }
            }
            return;
        }
        if !self.src.page_active {
            return;
        }
        if self.ui.nav_mode {
            let action = match key {
                Key::Left => Some(PageAction::Nav(Direction::Left)),
                Key::Right => Some(PageAction::Nav(Direction::Right)),
                Key::Up => Some(PageAction::Nav(Direction::Up)),
                Key::Down => Some(PageAction::Nav(Direction::Down)),
                Key::PlayPause => Some(PageAction::Space),
                _ => None,
            };
            match action {
                Some(a) => io.commands.push(Command::Page(a)),
                None => {},
            }
            return;
        }
        let step = self.media_step_exec();
        match key {
            Key::PlayPause => io.commands.push(Command::Page(PageAction::Space)),
            Key::Play => io.commands.push(Command::Page(PageAction::Play)),
            Key::Pause => io.commands.push(Command::Page(PageAction::Pause)),
            Key::Left => io.commands.push(Command::Page(PageAction::ArrowLeft)),
            Key::Right => io.commands.push(Command::Page(PageAction::ArrowRight)),
            Key::Rewind => io.commands.push(Command::Page(PageAction::Seek(-step))),
            Key::FastForward => io.commands.push(Command::Page(PageAction::Seek(step))),
            Key::Up | Key::Down => self.enter_nav(io, now),
            _ => {},
        }
    }

    fn on_key<P: Prints>(&mut self, io: &mut Output, key: Key, repeat: u32, lib: &P, now: u64)
        ensures
            did(Self::s_on_key(*old(self), key, repeat, *lib, now), *final(self), *old(io), *final(io)),
    {
        if key == Key::Back {
            if repeat == 0 {
                self.on_back(io);
            }
        } else if self.src.asking {
        } else if key == Key::Reload {
            if repeat == 0 {
                self.manual_reload(io, lib, now);
            }
        } else if key == Key::Menu {
            let long = self.ui.menu.down(repeat, now);
            if long {
                self.manual_reload(io, lib, now);
            }
        } else if self.src.native_shown {
            self.native_key(io, key, repeat, lib, now);
        } else {
            self.page_key(io, key, repeat, lib, now);
        }
    }

    fn on_key_up(&mut self, io: &mut Output, key: Key, now: u64)
        ensures
            did(Self::s_on_key_up(*old(self), key, now), *final(self), *old(io), *final(io)),
    {
        if self.src.asking {
            return;
        }
        if key == Key::Menu {
            let short = self.ui.menu.up();
            if !short {
            } else if self.src.native_shown {
                self.cycle_subtitles(io, now);
            } else if self.src.page_active {
                self.enter_nav(io, now);
                io.commands.push(Command::Page(PageAction::OpenSettings));
            }
        } else if key == Key::Center {
            let short = self.ui.center.up();
            if short && !self.src.native_shown && self.src.page_active {
                let action = if self.ui.nav_mode {
                    PageAction::Activate
                } else {
                    PageAction::Space
                };
                io.commands.push(Command::Page(action));
            }
        }
    }

    fn on_button<P: Prints>(&mut self, io: &mut Output, button: Button, lib: &P, now: u64)
        ensures
            did(Self::s_on_button(*old(self), button, *lib, now), *final(self), *old(io), *final(io)),
    {
        if !self.src.native_shown {
            if button == Button::Back {
                self.leave(io);
            }
            return;
        }
        let step = self.settings.seek_step_seconds as i64;
        match button {
            Button::Back => self.leave(io),
            Button::Next => self.play_next(io, lib, now),
            _ => {
                match button {
                    Button::PlayPause => self.toggle_play(io),
                    Button::Rewind => io.commands.push(Command::SeekBy(-step)),
                    Button::Forward => io.commands.push(Command::SeekBy(step)),
                    Button::VolumeDown => self.adjust_volume(io, false, now),
                    Button::VolumeUp => self.adjust_volume(io, true, now),
                    Button::Audio => self.show_audio_tracks(now),
                    Button::Subtitles => self.cycle_subtitles(io, now),
                    _ => self.cycle_quality(io, lib, now),
                }
                self.touch(now);
            },
        }
    }
}


/// A step's result handed back whole: the state is the step's, the effects are its effects and
/// the commands do what its commands do.
pub open spec fn gave(o: Out, c: Controller, out: Output) -> bool {
    &&& c == o.0
    &&& out.effects@ == o.1
    &&& out.commands@.len() == o.2.len()
    &&& forall|i: int| 0 <= i < o.2.len() ==> same_command(#[trigger] out.commands@[i], o.2[i])
}

proof fn lemma_did_alike(o: Out, c: Controller, io0: Output, io1: Output)
    requires
        did(o, c, io0, io1),
    ensures
        did_alike(o, c, io0, io1),
{
    assert forall|i: int| 0 <= i < io1.commands@.len() implies same_command(
        #[trigger] io1.commands@[i],
        (io0.commands@ + o.2)[i],
    ) by {
        assert(io1.commands@[i] == (io0.commands@ + o.2)[i]);
    }
}

proof fn lemma_gave(o: Out, c: Controller, io0: Output, io1: Output)
    requires
        did_alike(o, c, io0, io1),
        io0.effects@.len() == 0,
        io0.commands@.len() == 0,
    ensures
        gave(o, c, io1),
{
    assert(io0.effects@ + o.1 =~= o.1);
    assert(io0.commands@ + o.2 =~= o.2);
}

impl Controller {
    /// The controller of a freshly opened player screen.
    pub open spec fn s_new(config: PlayerConfig, now: u64) -> Controller {
        Controller {
            settings: config.settings,
            ui_language: config.ui_language,
            meta: config.meta,
            src: Source {
                start_at: config.start_at,
                asking: false,
                exited: false,
                failed: false,
                retried: false,
                native_allowed: true,
                native_shown: false,
                native_active: false,
                page_active: false,
                library_failed: false,
                playing_library: false,
                library_entry: None,
                start_applied: false,
                seq: 0,
                watchdog_at: None,
            },
            ep: Episodes { episode_count: 0, count_requested: false, pending_end: false, next_available: false },
            prog: Progress {
                playback: Playback { time_ms: 0, duration_ms: 0, paused: false, ended: false },
                has_playback: false,
                last_write: None,
                ended_fired: false,
                next_progress_at: later(now, PROGRESS_TICK_MS),
            },
            ui: Ui {
                overlay_shown: false,
                overlay_hide_at: 0,
                tracks_open: false,
                hint: None,
                hint_hide_at: 0,
                nav_mode: false,
                menu: Press { down_at: None, long: false },
                center: Press { down_at: None, long: false },
                volume: 100,
            },
            tracks: None,
        }
    }

    /// Which surface is up.
    pub open spec fn phase_spec(self) -> Phase {
        if self.src.exited {
            Phase::Exited
        } else if self.src.asking {
            Phase::Asking
        } else if self.src.failed {
            Phase::Failed
        } else if self.src.native_shown {
            Phase::Native
        } else if self.src.page_active {
            Phase::Page
        } else {
            Phase::Loading
        }
    }

    /// A player for `config`, opened at `now` (milliseconds of the monotonic clock). Nothing
    /// loads until [`Controller::start`].
    pub fn new(config: PlayerConfig, now: u64) -> (r: Controller)
        ensures
            r == Self::s_new(config, now),
    {
        Controller {
            settings: config.settings,
            ui_language: config.ui_language,
            meta: config.meta,
            src: Source {
                start_at: config.start_at,
                asking: false,
                exited: false,
                failed: false,
                retried: false,
                native_allowed: true,
                native_shown: false,
                native_active: false,
                page_active: false,
                library_failed: false,
                playing_library: false,
                library_entry: None,
                start_applied: false,
                seq: 0,
                watchdog_at: None,
            },
            ep: Episodes { episode_count: 0, count_requested: false, pending_end: false, next_available: false },
            prog: Progress {
                playback: Playback { time_ms: 0, duration_ms: 0, paused: false, ended: false },
                has_playback: false,
                last_write: None,
                ended_fired: false,
                next_progress_at: later_exec(now, PROGRESS_TICK_MS),
            },
            ui: Ui {
                overlay_shown: false,
                overlay_hide_at: 0,
                tracks_open: false,
                hint: None,
                hint_hide_at: 0,
                nav_mode: false,
                menu: Press { down_at: None, long: false },
                center: Press { down_at: None, long: false },
                volume: 100,
            },
            tracks: None,
        }
    }

    /// What is playing.
    pub fn meta(&self) -> (r: &Meta)
        ensures
            *r == self.meta,
    {
        &self.meta
    }

    /// The saved position the next load starts from.
    pub fn start_at(&self) -> (r: u32)
        ensures
            r == self.src.start_at,
    {
        self.src.start_at
    }

    /// Which surface is up.
    pub fn phase(&self) -> (r: Phase)
        ensures
            r == self.phase_spec(),
    {
        if self.src.exited {
            Phase::Exited
        } else if self.src.asking {
            Phase::Asking
        } else if self.src.failed {
            Phase::Failed
        } else if self.src.native_shown {
            Phase::Native
        } else if self.src.page_active {
            Phase::Page
        } else {
            Phase::Loading
        }
    }

    fn resume<P: Prints>(&mut self, io: &mut Output, resume: bool, lib: &P, now: u64)
        ensures
            did(Self::s_resume(*old(self), resume, *lib, now), *final(self), *old(io), *final(io)),
    {
        if self.src.asking {
            self.src.asking = false;
            if !resume {
                self.src.start_at = 0;
            }
            self.load(io, lib, now);
        }
    }

    fn episode_count<P: Prints>(&mut self, io: &mut Output, n: u32, lib: &P, now: u64)
        ensures
            did(Self::s_episode_count(*old(self), n, *lib, now), *final(self), *old(io), *final(io)),
    {
        self.ep.episode_count = n;
        self.ep.count_requested = false;
        self.ep.next_available = self.meta.media == MediaType::Tv && self.meta.episode < n;
        if self.ep.pending_end {
            self.ep.pending_end = false;
            self.resolve_end(io, lib, now);
        }
    }

    fn on_playback<P: Prints>(&mut self, io: &mut Output, p: Playback, lib: &P, now: u64, epoch: i64)
        ensures
            did(Self::s_on_playback(*old(self), p, *lib, now, epoch), *final(self), *old(io), *final(io)),
    {
        self.prog.playback = p;
        if p.duration_ms > 0 && p.time_ms > 0 {
            self.prog.has_playback = true;
        }
        if p.ended {
            self.progress(io, lib, now, epoch);
        }
    }

    fn page_ready(&mut self, io: &mut Output)
        ensures
            did(Self::s_page_ready(*old(self)), *final(self), *old(io), *final(io)),
    {
        if self.src.page_active {
            if self.src.start_at > 0 {
                io.commands.push(Command::Page(PageAction::ApplyStart(self.src.start_at)));
            }
            if self.settings.speed_percent != 100 {
                io.commands.push(Command::Page(PageAction::ApplySpeed(self.settings.speed_percent)));
            }
        }
    }

    #[verifier::spinoff_prover]
    #[verifier::rlimit(30)]
    fn dispatch_plain<P: Prints>(&mut self, io: &mut Output, input: Input, lib: &P, now: u64, epoch: i64)
        requires
            !(input is PickTrack),
        ensures
            did(Self::s_dispatch(*old(self), input, *lib, now, epoch), *final(self), *old(io), *final(io)),
    {
        match input {
            Input::Key { key, repeat } => self.on_key(io, key, repeat, lib, now),
            Input::KeyUp(key) => self.on_key_up(io, key, now),
            Input::Button(b) => self.on_button(io, b, lib, now),
            Input::ScrubBy { forward, repeat } => {
                if self.src.native_shown {
                    let step = self.arrow_step_exec(repeat);
                    io.commands.push(Command::SeekBy(if forward { step } else { -step }));
                    self.touch(now);
                }
            },
            Input::ScrubTo(ms) => {
                if self.src.native_shown {
                    io.commands.push(Command::SeekTo(ms));
                    self.touch(now);
                }
            },
            Input::PickTrack(_) => {},
            Input::MouseMove => {
                if self.src.native_shown {
                    self.show_overlay(now);
                }
            },
            Input::VideoClick => {
                if self.src.native_shown {
                    self.toggle_play(io);
                    if self.ui.overlay_shown {
                        self.touch(now);
                    }
                }
            },
            Input::Resume(resume) => self.resume(io, resume, lib, now),
            Input::Tick => self.on_tick(io, lib, now, epoch),
            Input::LibraryPrepared { seq, subtitle } => {
                if seq == self.src.seq {
                    self.start_library(io, subtitle);
                }
            },
            Input::Sniffed { seq, result } => {
                if seq == self.src.seq {
                    self.start_url(io, result);
                }
            },
            Input::SniffFailed { seq } => {
                if seq == self.src.seq && !self.src.native_active {
                    self.on_load_failed(io, lib, now);
                }
            },
            Input::EpisodeCount(n) => self.episode_count(io, n, lib, now),
            Input::FileLoaded { duration_ms } => self.on_file_loaded(io, duration_ms),
            Input::FirstFrame => self.on_first_frame(io),
            Input::Playback(p) => self.on_playback(io, p, lib, now, epoch),
            Input::Tracks { audio, subs, aid, sid } => {
                self.tracks = Some(TrackLists { audio, subs, aid, sid });
            },
            Input::EngineError(_) => self.on_engine_error(io, lib, now),
            Input::PageReady => self.page_ready(io),
            Input::PageFailed => {
                if self.src.page_active {
                    self.on_load_failed(io, lib, now);
                }
            },
            Input::PagePanelClosed(closed) => {
                if !closed {
                    self.exit_nav(io);
                }
            },
        }
    }

    fn dispatch<P: Prints>(&mut self, io: &mut Output, input: Input, lib: &P, now: u64, epoch: i64)
        ensures
            did_alike(Self::s_dispatch(*old(self), input, *lib, now, epoch), *final(self), *old(io), *final(io)),
    {
        match input {
            Input::PickTrack(i) => self.pick_audio(io, i, now),
            other => {
                let ghost c0 = *self;
                let ghost io0 = *io;
                self.dispatch_plain(io, other, lib, now, epoch);
                proof {
                    lemma_did_alike(Self::s_dispatch(c0, other, *lib, now, epoch), *self, io0, *io);
                }
            },
        }
    }

    /// Applies the resume mode: ALWAYS resumes, NEVER starts over, ASK shows the dialog.
    /// Returns what the view has to do.
    pub fn start<P: Prints>(&mut self, lib: &P, now: u64) -> (out: Output)
        ensures
            gave(Self::s_start(*old(self), *lib, now), *final(self), out),
    {
        let mut io = Output { effects: Vec::new(), commands: Vec::new() };
        let ghost io0 = io;
        if self.src.start_at == 0 {
            self.load(&mut io, lib, now);
        } else {
            match self.settings.resume_mode {
                ResumeMode::Never => {
                    self.src.start_at = 0;
                    self.load(&mut io, lib, now);
                },
                ResumeMode::Ask => {
                    self.src.asking = true;
                },
                ResumeMode::Always => {
                    self.load(&mut io, lib, now);
                },
            }
        }
        proof {
            lemma_did_alike(Self::s_start(*old(self), *lib, now), *self, io0, io);
            lemma_gave(Self::s_start(*old(self), *lib, now), *self, io0, io);
        }
        io
    }

    /// Feeds one input at `now` (the monotonic clock) and `epoch` (wall-clock milliseconds,
    /// stamped on saved progress), with the library as it stands, and returns what the view
    /// has to do. An exited player ignores every input.
    pub fn handle<P: Prints>(&mut self, input: Input, lib: &P, now: u64, epoch: i64) -> (out: Output)
        ensures
            gave(Self::s_step(*old(self), input, *lib, now, epoch), *final(self), out),
    {
        let mut io = Output { effects: Vec::new(), commands: Vec::new() };
        let ghost io0 = io;
        if !self.src.exited {
            self.dispatch(&mut io, input, lib, now, epoch);
        } else {
            proof {
                lemma_did_alike(Self::s_step(*old(self), input, *lib, now, epoch), *self, io0, io);
            }
        }
        proof {
            lemma_gave(Self::s_step(*old(self), input, *lib, now, epoch), *self, io0, io);
        }
        io
    }
}


/// The label of a subtitle track: its title, else its language, else `Subtitles`.
pub open spec fn sub_label(t: SubTrack) -> Seq<char> {
    match t.title {
        Some(title) => title@,
        None => match t.language_name {
            Some(name) => name@,
            None => "Subtitles"@,
        },
    }
}

/// The text of the hint line.
pub open spec fn hint_text_spec(h: Hint) -> Seq<char> {
    match h {
        Hint::Reloading => "RELOADING PLAYER"@,
        Hint::Next { season, episode } => "NEXT · S"@ + decimal(season as nat) + " E"@ + decimal(
            episode as nat,
        ),
        Hint::EpisodeFinished => "EPISODE FINISHED"@,
        Hint::Seek(secs) => seek_hint_spec(secs),
        Hint::Volume(v) => "VOLUME · "@ + decimal(v as nat) + "%"@,
        Hint::Audio(label) => "AUDIO · "@ + upper(label@),
        Hint::SubtitlesOff => "SUBTITLES OFF"@,
        Hint::Subtitle(t) => "SUBTITLES · "@ + upper(sub_label(t)),
        Hint::Quality(e) => "QUALITY · "@ + upper(entry_label(e)),
        Hint::Navigate => "NAVIGATE · CENTER SELECT · BACK EXIT"@,
    }
}

/// The text of a hint.
pub fn hint_text(h: &Hint) -> (r: String)
    ensures
        r@ == hint_text_spec(*h),
{
    let mut out: Vec<char> = Vec::new();
    match h {
        Hint::Reloading => push_str(&mut out, "RELOADING PLAYER"),
        Hint::Next { season, episode } => {
            push_str(&mut out, "NEXT · S");
            push_decimal(&mut out, *season as u64);
            push_str(&mut out, " E");
            push_decimal(&mut out, *episode as u64);
        },
        Hint::EpisodeFinished => push_str(&mut out, "EPISODE FINISHED"),
        Hint::Seek(secs) => {
            let s = seek_hint(*secs);
            push_str(&mut out, s.as_str());
        },
        Hint::Volume(v) => {
            push_str(&mut out, "VOLUME · ");
            push_decimal(&mut out, *v as u64);
            push_str(&mut out, "%");
        },
        Hint::Audio(label) => {
            push_str(&mut out, "AUDIO · ");
            let u = to_upper(label.as_str());
            push_str(&mut out, u.as_str());
        },
        Hint::SubtitlesOff => push_str(&mut out, "SUBTITLES OFF"),
        Hint::Subtitle(t) => {
            push_str(&mut out, "SUBTITLES · ");
            let label = match &t.title {
                Some(title) => title.clone(),
                None => match &t.language_name {
                    Some(name) => name.clone(),
                    None => crate::text::owned("Subtitles"),
                },
            };
            let u = to_upper(label.as_str());
            push_str(&mut out, u.as_str());
        },
        Hint::Quality(e) => {
            push_str(&mut out, "QUALITY · ");
            let label = e.label();
            let u = to_upper(label.as_str());
            push_str(&mut out, u.as_str());
        },
        Hint::Navigate => push_str(&mut out, "NAVIGATE · CENTER SELECT · BACK EXIT"),
    }
    assert(out@ =~= hint_text_spec(*h));
    string_of(&out)
}

/// `S1 · E3` for an episode, `MOVIE` for a movie.
pub open spec fn eyebrow_spec(m: Meta) -> Seq<char> {
    match m.media {
        MediaType::Tv => seq!['S'] + decimal(m.season as nat) + " · E"@ + decimal(m.episode as nat),
        MediaType::Movie => "MOVIE"@,
    }
}

/// The position of the first audio option holding track `id`.
pub open spec fn first_with_id(audio: Seq<AudioOption>, id: i64) -> int {
    choose|i: int|
        0 <= i < audio.len() && (#[trigger] audio[i]).ids@.contains(id) && forall|j: int|
            0 <= j < i ==> !(#[trigger] audio[j]).ids@.contains(id)
}

/// The row of the selected audio option in the tracks panel, 0 when none is selected.
pub open spec fn selected_audio_spec(audio: Seq<AudioOption>, aid: Option<i64>) -> int {
    match aid {
        Some(id) => if exists|i: int| 0 <= i < audio.len() && (#[trigger] audio[i]).ids@.contains(id) {
            first_with_id(audio, id)
        } else {
            0
        },
        None => 0,
    }
}

fn holds_id(ids: &Vec<i64>, id: i64) -> (r: bool)
    ensures
        r == ids@.contains(id),
{
    let mut i: usize = 0;
    while i < ids.len()
        invariant
            i <= ids@.len(),
            forall|j: int| 0 <= j < i ==> ids@[j] != id,
        decreases ids@.len() - i,
    {
        if ids[i] == id {
            return true;
        }
        i = i + 1;
    }
    false
}

/// The tracks panel of the audio options.
pub fn audio_panel(audio: &Vec<AudioOption>, aid: Option<i64>) -> (p: TracksPanel)
    ensures
        p.heading@ == "AUDIO"@,
        p.labels@.map_values(|s: String| s@) == audio@.map_values(|o: AudioOption| o.label@),
        p.selected == selected_audio_spec(audio@, aid),
{
    let mut labels: Vec<String> = Vec::new();
    let mut i: usize = 0;
    while i < audio.len()
        invariant
            i <= audio@.len(),
            labels@.len() == i,
            forall|j: int| 0 <= j < i ==> (#[trigger] labels@[j])@ == audio@[j].label@,
        decreases audio@.len() - i,
    {
        labels.push(audio[i].label.clone());
        i = i + 1;
    }
    assert(labels@.map_values(|s: String| s@) =~= audio@.map_values(|o: AudioOption| o.label@));
    let mut selected: usize = 0;
    match aid {
        Some(id) => {
            let mut k: usize = 0;
            while k < audio.len() && !holds_id(&audio[k].ids, id)
                invariant
                    k <= audio@.len(),
                    forall|j: int| 0 <= j < k ==> !(#[trigger] audio@[j]).ids@.contains(id),
                decreases audio@.len() - k,
            {
                k = k + 1;
            }
            if k < audio.len() {
                proof {
                    let kk = k as int;
                    assert(audio@[kk].ids@.contains(id));
                    let f = first_with_id(audio@, id);
                    assert(0 <= f < audio@.len() && audio@[f].ids@.contains(id) && forall|j: int|
                        0 <= j < f ==> !(#[trigger] audio@[j]).ids@.contains(id));
                    assert(f == kk) by {
                        if f < kk {
                            assert(!audio@[f].ids@.contains(id));
                        } else if f > kk {
                            assert(!audio@[kk].ids@.contains(id));
                        }
                    }
                }
                selected = k;
            }
        },
        None => {},
    }
    TracksPanel { heading: crate::text::owned("AUDIO"), labels, selected }
}

impl Controller {
    /// Everything the view draws, with the library as it stands.
    pub fn view<P: Prints>(&self, lib: &P) -> (v: ViewState)
        ensures
            v.phase == self.phase_spec(),
            v.resume_label is Some <==> self.src.asking,
            self.src.asking ==> v.resume_label.unwrap()@ == "Resume from "@ + stamp_spec(
                self.src.start_at as nat,
            ),
            v.overlay_visible == (self.src.native_shown && self.ui.overlay_shown),
            v.tracks is Some <==> (self.src.native_shown && self.ui.overlay_shown && self.ui.tracks_open),
            v.tracks is Some ==> {
                let p = v.tracks.unwrap();
                &&& p.heading@ == "AUDIO"@
                &&& p.labels@.map_values(|s: String| s@) == audio_of(self.tracks).map_values(
                    |o: AudioOption| o.label@,
                )
                &&& p.selected == selected_audio_spec(audio_of(self.tracks), self.tracks.unwrap().aid)
            },
            v.hint is Some <==> self.ui.hint is Some,
            self.ui.hint is Some ==> v.hint.unwrap()@ == hint_text_spec(self.ui.hint.unwrap()),
            v.eyebrow@ == eyebrow_spec(self.meta),
            v.title == self.meta.title,
            v.position@ == stamp_spec(secs_of(self.prog.playback.time_ms) as nat),
            v.duration@ == (if self.prog.playback.duration_ms > 0 {
                stamp_spec(secs_of(self.prog.playback.duration_ms) as nat)
            } else {
                "--:--"@
            }),
            v.time_ms == self.prog.playback.time_ms,
            v.length_ms == self.prog.playback.duration_ms,
            v.paused == self.prog.playback.paused,
            v.volume == self.ui.volume,
            v.nav_mode == self.ui.nav_mode,
            v.audio_available == (audio_of(self.tracks).len() > 1),
            v.subtitles_available == (subs_of(self.tracks).len() > 0),
            v.quality_available == (self.src.library_entry is Some && lib.prints_spec(
                self.meta.key_spec(),
            ).len() > 1),
            v.next_available == self.ep.next_available,
    {
        let resume_label = if self.src.asking {
            let mut out: Vec<char> = Vec::new();
            push_str(&mut out, "Resume from ");
            let s = stamp(self.src.start_at);
            push_str(&mut out, s.as_str());
            Some(string_of(&out))
        } else {
            None
        };
        let tracks = if self.src.native_shown && self.ui.overlay_shown && self.ui.tracks_open {
            match &self.tracks {
                Some(t) => Some(audio_panel(&t.audio, t.aid)),
                None => {
                    let empty: Vec<AudioOption> = Vec::new();
                    Some(audio_panel(&empty, None))
                },
            }
        } else {
            None
        };
        let hint = match &self.ui.hint {
            Some(h) => Some(hint_text(h)),
            None => None,
        };
        let eyebrow = match self.meta.media {
            MediaType::Tv => {
                let mut out: Vec<char> = Vec::new();
                out.push('S');
                push_decimal(&mut out, self.meta.season as u64);
                push_str(&mut out, " · E");
                push_decimal(&mut out, self.meta.episode as u64);
                string_of(&out)
            },
            MediaType::Movie => crate::text::owned("MOVIE"),
        };
        let duration = if self.prog.playback.duration_ms > 0 {
            stamp(secs_of_exec(self.prog.playback.duration_ms))
        } else {
            crate::text::owned("--:--")
        };
        let quality_available = match &self.src.library_entry {
            Some(_) => lib.prints(self.meta.key()).len() > 1,
            None => false,
        };
        ViewState {
            phase: self.phase(),
            resume_label,
            overlay_visible: self.src.native_shown && self.ui.overlay_shown,
            tracks,
            hint,
            eyebrow,
            title: self.meta.title.clone(),
            position: stamp(secs_of_exec(self.prog.playback.time_ms)),
            duration,
            time_ms: self.prog.playback.time_ms,
            length_ms: self.prog.playback.duration_ms,
            paused: self.prog.playback.paused,
            volume: self.ui.volume,
            nav_mode: self.ui.nav_mode,
            audio_available: self.audio_count() > 1,
            subtitles_available: self.sub_count() > 0,
            quality_available,
            next_available: self.ep.next_available,
        }
    }
}


/// The load sequence number after `seq`.
pub open spec fn seq_after(seq: u64) -> u64 {
    if seq == u64::MAX { 0 } else { (seq + 1) as u64 }
}

impl Controller {
    /// An exited player ignores every input: nothing changes and nothing is asked of the view.
    pub proof fn law_exited_ignores_input<P: Prints>(c: Controller, input: Input, lib: P, now: u64, epoch: i64)
        requires
            c.src.exited,
        ensures
            Self::s_step(c, input, lib, now, epoch) == (c, Seq::<Effect>::empty(), Seq::<Command>::empty()),
    {
    }

    /// Results of async work started for an earlier load (another sequence number) are
    /// ignored.
    pub proof fn law_stale_results_are_ignored<P: Prints>(
        c: Controller,
        seq: u64,
        subtitle: Option<String>,
        result: SniffResult,
        lib: P,
        now: u64,
        epoch: i64,
    )
        requires
            seq != c.src.seq,
        ensures
            Self::s_step(c, Input::LibraryPrepared { seq, subtitle }, lib, now, epoch) == (c, Seq::<Effect>::empty(), Seq::<Command>::empty()),
            Self::s_step(c, Input::Sniffed { seq, result }, lib, now, epoch) == (c, Seq::<Effect>::empty(), Seq::<Command>::empty()),
            Self::s_step(c, Input::SniffFailed { seq }, lib, now, epoch) == (c, Seq::<Effect>::empty(), Seq::<Command>::empty()),
    {
    }

    /// Every load starts a new attempt under the next sequence number and asks for exactly one
    /// source, carrying that number: the library print when Telegram is ready, one is uploaded
    /// and the library has not failed this episode; else a sniff of the VidLink page, or the
    /// page player once native playback has failed this session.
    #[verifier::spinoff_prover]
    #[verifier::rlimit(60)]
    pub proof fn law_load_asks_for_one_source<P: Prints>(c: Controller, lib: P, now: u64)
        ensures
            ({
                let (c2, fx, ks) = Self::s_load(c, lib, now);
                let seq = seq_after(c.src.seq);
                let entry = if c.src.library_failed || !lib.ready_spec() {
                    None
                } else {
                    default_print_spec(lib.prints_spec(c.meta.key_spec()), Self::preferred_quality(c))
                };
                let page = PageUrl { key: c.meta.key_spec(), start_at: c.src.start_at };
                &&& c2.src.seq == seq
                &&& c2.src.library_entry == entry
                &&& !c2.src.native_active && !c2.src.native_shown && !c2.src.failed
                &&& c2.src.retried == c.src.retried && c2.meta == c.meta
                &&& match entry {
                    Some(e) => fx.last() == Effect::PrepareLibrary { seq, entry: e } && !c2.src.page_active,
                    None => if c.src.native_allowed {
                        fx.last() == Effect::Sniff { seq, page }
                    } else {
                        ks.last() == Command::PageLoad(page) && c2.src.page_active
                    },
                }
            }),
    {
        reveal(Controller::s_load);
        Self::lemma_load_begin_keeps(c);
        let b = Self::s_load_begin(c);
        let p = Self::s_load_pick(b.0, lib, now);
        assert(p.1.len() > 0 || p.2.len() > 0);
        if p.1.len() > 0 {
            assert((b.1 + p.1).last() == p.1.last());
        }
        if p.2.len() > 0 {
            assert((b.2 + p.2).last() == p.2.last());
        }
    }

    proof fn lemma_load_begin_keeps(c: Controller)
        ensures
            ({
                let b = Self::s_load_begin(c).0;
                &&& b.src.seq == c.src.seq
                &&& b.src.library_failed == c.src.library_failed
                &&& b.meta == c.meta
                &&& b.settings == c.settings
                &&& b.src.native_allowed == c.src.native_allowed
                &&& b.src.start_at == c.src.start_at
                &&& b.src.page_active == c.src.page_active
                &&& b.src.retried == c.src.retried
                &&& !b.src.native_active && !b.src.native_shown && !b.src.failed
            }),
    {
        let c1 = Self::s_reset_bridge(c);
        let a = Self::s_exit_nav(c1);
        Self::lemma_exit_nav_keeps(c1);
        let b = Self::s_stop_native(a.0);
        let c3h = Self::s_hide_overlay(b.0);
        let c4 = Controller { src: Source { native_shown: false, failed: false, ..c3h.src }, ..c3h };
        Self::lemma_refresh_next_keeps(c4);
    }

    proof fn lemma_exit_nav_keeps(c: Controller)
        ensures
            Self::s_exit_nav(c).0.src == c.src,
            Self::s_exit_nav(c).0.meta == c.meta,
            Self::s_exit_nav(c).0.settings == c.settings,
    {
    }

    proof fn lemma_refresh_next_keeps(c: Controller)
        ensures
            Self::s_refresh_next(c).0.src == c.src,
            Self::s_refresh_next(c).0.meta == c.meta,
            Self::s_refresh_next(c).0.settings == c.settings,
    {
    }

    proof fn lemma_load_begin_keeps_volume(c: Controller)
        ensures
            Self::s_load_begin(c).0.ui.volume == c.ui.volume,
            c.ui.volume <= VOLUME_MAX ==> volumes_ok(Self::s_load_begin(c).2),
    {
        lemma_volumes_concat();
        let c1 = Self::s_reset_bridge(c);
        let c2 = Self::s_exit_nav(c1).0;
        let c3 = Self::s_stop_native(c2).0;
        let c3h = Self::s_hide_overlay(c3);
        let c4 = Controller { src: Source { native_shown: false, failed: false, ..c3h.src }, ..c3h };
        assert(c1.ui.volume == c.ui.volume);
        assert(c2.ui.volume == c1.ui.volume);
        assert(c3.ui.volume == c2.ui.volume);
        assert(c3h.ui.volume == c3.ui.volume);
        assert(Self::s_refresh_next(c4).0.ui.volume == c4.ui.volume);
    }

    proof fn lemma_load_pick_keeps_volume<P: Prints>(c: Controller, lib: P, now: u64)
        ensures
            Self::s_load_pick(c, lib, now).0.ui.volume == c.ui.volume,
            c.ui.volume <= VOLUME_MAX ==> volumes_ok(Self::s_load_pick(c, lib, now).2),
    {
        lemma_volumes_concat();
    }

    proof fn lemma_load_keeps_volume<P: Prints>(c: Controller, lib: P, now: u64)
        ensures
            Self::s_load(c, lib, now).0.ui.volume == c.ui.volume,
            c.ui.volume <= VOLUME_MAX ==> volumes_ok(Self::s_load(c, lib, now).2),
    {
        lemma_volumes_concat();
        reveal(Controller::s_load);
        Self::lemma_load_begin_keeps_volume(c);
        Self::lemma_load_pick_keeps_volume(Self::s_load_begin(c).0, lib, now);
    }

    proof fn lemma_reload_volumes<P: Prints>(c: Controller, lib: P, now: u64)
        requires
            c.ui.volume <= VOLUME_MAX,
        ensures
            volumes_ok(Self::s_manual_reload(c, lib, now).2),
    {
        lemma_volumes_concat();
        assert forall|c2: Controller| #![trigger Self::s_load(c2, lib, now)] Self::s_load(c2, lib, now).0.ui.volume == c2.ui.volume
            && (c2.ui.volume <= VOLUME_MAX ==> volumes_ok(Self::s_load(c2, lib, now).2)) by {
            Self::lemma_load_keeps_volume(c2, lib, now);
        }
    }

    #[verifier::spinoff_prover]
    proof fn lemma_native_key_volumes<P: Prints>(c: Controller, key: Key, repeat: u32, lib: P, now: u64)
        requires
            c.ui.volume <= VOLUME_MAX,
        ensures
            volumes_ok(Self::s_native_key(c, key, repeat, lib, now).2),
    {
        lemma_volumes_concat();
        assert forall|c2: Controller| #![trigger Self::s_load(c2, lib, now)] Self::s_load(c2, lib, now).0.ui.volume == c2.ui.volume
            && (c2.ui.volume <= VOLUME_MAX ==> volumes_ok(Self::s_load(c2, lib, now).2)) by {
            Self::lemma_load_keeps_volume(c2, lib, now);
        }
    }

    #[verifier::spinoff_prover]
    proof fn lemma_page_key_volumes<P: Prints>(c: Controller, key: Key, repeat: u32, lib: P, now: u64)
        requires
            c.ui.volume <= VOLUME_MAX,
        ensures
            volumes_ok(Self::s_page_key(c, key, repeat, lib, now).2),
    {
        lemma_volumes_concat();
        Self::lemma_reload_volumes(c, lib, now);
    }

    proof fn lemma_on_back_volumes(c: Controller)
        ensures
            volumes_ok(Self::s_on_back(c).2),
    {
        lemma_volumes_concat();
    }

    #[verifier::spinoff_prover]
    #[verifier::rlimit(60)]
    proof fn lemma_on_key_keeps_volume<P: Prints>(c: Controller, key: Key, repeat: u32, lib: P, now: u64)
        requires
            c.ui.volume <= VOLUME_MAX,
        ensures
            Self::s_on_key(c, key, repeat, lib, now).0.ui.volume <= VOLUME_MAX,
            volumes_ok(Self::s_on_key(c, key, repeat, lib, now).2),
    {
        lemma_volumes_concat();
        Self::lemma_on_back_volumes(c);
        Self::lemma_reload_volumes(c, lib, now);
        let (menu, long) = press_down(c.ui.menu, repeat, now);
        Self::lemma_reload_volumes(Controller { ui: Ui { menu, ..c.ui }, ..c }, lib, now);
        Self::lemma_native_key_volumes(c, key, repeat, lib, now);
        Self::lemma_page_key_volumes(c, key, repeat, lib, now);
        assert forall|c2: Controller| #![trigger Self::s_load(c2, lib, now)] Self::s_load(c2, lib, now).0.ui.volume == c2.ui.volume
            && (c2.ui.volume <= VOLUME_MAX ==> volumes_ok(Self::s_load(c2, lib, now).2)) by {
            Self::lemma_load_keeps_volume(c2, lib, now);
        }
    }

    proof fn lemma_on_key_up_keeps_volume(c: Controller, key: Key, now: u64)
        requires
            c.ui.volume <= VOLUME_MAX,
        ensures
            Self::s_on_key_up(c, key, now).0.ui.volume <= VOLUME_MAX,
            volumes_ok(Self::s_on_key_up(c, key, now).2),
    {
        lemma_volumes_concat();
    }

    #[verifier::spinoff_prover]
    #[verifier::rlimit(60)]
    proof fn lemma_on_button_keeps_volume<P: Prints>(c: Controller, button: Button, lib: P, now: u64)
        requires
            c.ui.volume <= VOLUME_MAX,
        ensures
            Self::s_on_button(c, button, lib, now).0.ui.volume <= VOLUME_MAX,
            volumes_ok(Self::s_on_button(c, button, lib, now).2),
    {
        lemma_volumes_concat();
        assert forall|c2: Controller| #![trigger Self::s_load(c2, lib, now)] Self::s_load(c2, lib, now).0.ui.volume == c2.ui.volume
            && (c2.ui.volume <= VOLUME_MAX ==> volumes_ok(Self::s_load(c2, lib, now).2)) by {
            Self::lemma_load_keeps_volume(c2, lib, now);
        }
    }

    proof fn lemma_pick_audio_keeps_volume(c: Controller, index: usize, now: u64)
        requires
            c.ui.volume <= VOLUME_MAX,
        ensures
            Self::s_pick_audio(c, index, now).0.ui.volume <= VOLUME_MAX,
            volumes_ok(Self::s_pick_audio(c, index, now).2),
    {
        lemma_volumes_concat();
    }

    proof fn lemma_resume_keeps_volume<P: Prints>(c: Controller, resume: bool, lib: P, now: u64)
        requires
            c.ui.volume <= VOLUME_MAX,
        ensures
            Self::s_resume(c, resume, lib, now).0.ui.volume <= VOLUME_MAX,
            volumes_ok(Self::s_resume(c, resume, lib, now).2),
    {
        lemma_volumes_concat();
        assert forall|c2: Controller| #![trigger Self::s_load(c2, lib, now)] Self::s_load(c2, lib, now).0.ui.volume == c2.ui.volume
            && (c2.ui.volume <= VOLUME_MAX ==> volumes_ok(Self::s_load(c2, lib, now).2)) by {
            Self::lemma_load_keeps_volume(c2, lib, now);
        }
    }

    proof fn lemma_on_ended_keeps_volume<P: Prints>(c: Controller, lib: P, now: u64)
        requires
            c.ui.volume <= VOLUME_MAX,
        ensures
            Self::s_on_ended(c, lib, now).0.ui.volume <= VOLUME_MAX,
            volumes_ok(Self::s_on_ended(c, lib, now).2),
    {
        lemma_volumes_concat();
        assert forall|c2: Controller| #![trigger Self::s_load(c2, lib, now)] Self::s_load(c2, lib, now).0.ui.volume == c2.ui.volume
            && (c2.ui.volume <= VOLUME_MAX ==> volumes_ok(Self::s_load(c2, lib, now).2)) by {
            Self::lemma_load_keeps_volume(c2, lib, now);
        }
    }

    proof fn lemma_tick_progress_keeps_volume<P: Prints>(c: Controller, lib: P, now: u64, epoch: i64)
        requires
            c.ui.volume <= VOLUME_MAX,
        ensures
            Self::s_tick_progress(c, lib, now, epoch).0.ui.volume <= VOLUME_MAX,
            volumes_ok(Self::s_tick_progress(c, lib, now, epoch).2),
    {
        lemma_volumes_concat();
        assert forall|c2: Controller| c2.ui.volume <= VOLUME_MAX implies #[trigger] Self::s_on_ended(c2, lib, now).0.ui.volume <= VOLUME_MAX
            && volumes_ok(Self::s_on_ended(c2, lib, now).2) by {
            Self::lemma_on_ended_keeps_volume(c2, lib, now);
        }
    }

    proof fn lemma_watchdog_keeps_volume<P: Prints>(c: Controller, lib: P, now: u64)
        requires
            c.ui.volume <= VOLUME_MAX,
        ensures
            Self::s_watchdog(c, lib, now).0.ui.volume <= VOLUME_MAX,
            volumes_ok(Self::s_watchdog(c, lib, now).2),
    {
        lemma_volumes_concat();
        assert forall|c2: Controller| c2.ui.volume <= VOLUME_MAX implies #[trigger] Self::s_on_load_failed(c2, lib, now).0.ui.volume <= VOLUME_MAX
            && volumes_ok(Self::s_on_load_failed(c2, lib, now).2) by {
            Self::lemma_on_load_failed_keeps_volume(c2, lib, now);
        }
    }

    proof fn lemma_on_tick_keeps_volume<P: Prints>(c: Controller, lib: P, now: u64, epoch: i64)
        requires
            c.ui.volume <= VOLUME_MAX,
        ensures
            Self::s_on_tick(c, lib, now, epoch).0.ui.volume <= VOLUME_MAX,
            volumes_ok(Self::s_on_tick(c, lib, now, epoch).2),
    {
        lemma_volumes_concat();
        let c1 = Self::s_tick_timers(c, now);
        assert(c1.ui.volume == c.ui.volume);
        Self::lemma_watchdog_keeps_volume(c1, lib, now);
        Self::lemma_tick_progress_keeps_volume(Self::s_watchdog(c1, lib, now).0, lib, now, epoch);
    }

    proof fn lemma_on_load_failed_keeps_volume<P: Prints>(c: Controller, lib: P, now: u64)
        requires
            c.ui.volume <= VOLUME_MAX,
        ensures
            Self::s_on_load_failed(c, lib, now).0.ui.volume <= VOLUME_MAX,
            volumes_ok(Self::s_on_load_failed(c, lib, now).2),
    {
        lemma_volumes_concat();
        assert forall|c2: Controller| #![trigger Self::s_load(c2, lib, now)] Self::s_load(c2, lib, now).0.ui.volume == c2.ui.volume
            && (c2.ui.volume <= VOLUME_MAX ==> volumes_ok(Self::s_load(c2, lib, now).2)) by {
            Self::lemma_load_keeps_volume(c2, lib, now);
        }
    }

    proof fn lemma_episode_count_keeps_volume<P: Prints>(c: Controller, n: u32, lib: P, now: u64)
        requires
            c.ui.volume <= VOLUME_MAX,
        ensures
            Self::s_episode_count(c, n, lib, now).0.ui.volume <= VOLUME_MAX,
            volumes_ok(Self::s_episode_count(c, n, lib, now).2),
    {
        lemma_volumes_concat();
        assert forall|c2: Controller| #![trigger Self::s_load(c2, lib, now)] Self::s_load(c2, lib, now).0.ui.volume == c2.ui.volume
            && (c2.ui.volume <= VOLUME_MAX ==> volumes_ok(Self::s_load(c2, lib, now).2)) by {
            Self::lemma_load_keeps_volume(c2, lib, now);
        }
    }

    proof fn lemma_on_playback_keeps_volume<P: Prints>(c: Controller, p: Playback, lib: P, now: u64, epoch: i64)
        requires
            c.ui.volume <= VOLUME_MAX,
        ensures
            Self::s_on_playback(c, p, lib, now, epoch).0.ui.volume <= VOLUME_MAX,
            volumes_ok(Self::s_on_playback(c, p, lib, now, epoch).2),
    {
        lemma_volumes_concat();
        assert forall|c2: Controller| c2.ui.volume <= VOLUME_MAX implies #[trigger] Self::s_on_ended(c2, lib, now).0.ui.volume <= VOLUME_MAX
            && volumes_ok(Self::s_on_ended(c2, lib, now).2) by {
            Self::lemma_on_ended_keeps_volume(c2, lib, now);
        }
        assert forall|c2: Controller| #![trigger Self::s_load(c2, lib, now)] Self::s_load(c2, lib, now).0.ui.volume == c2.ui.volume
            && (c2.ui.volume <= VOLUME_MAX ==> volumes_ok(Self::s_load(c2, lib, now).2)) by {
            Self::lemma_load_keeps_volume(c2, lib, now);
        }
    }

    proof fn lemma_on_engine_error_keeps_volume<P: Prints>(c: Controller, lib: P, now: u64)
        requires
            c.ui.volume <= VOLUME_MAX,
        ensures
            Self::s_on_engine_error(c, lib, now).0.ui.volume <= VOLUME_MAX,
            volumes_ok(Self::s_on_engine_error(c, lib, now).2),
    {
        lemma_volumes_concat();
        assert(volumes_ok(Self::s_stop_native(c).2));
        assert forall|c2: Controller| #![trigger Self::s_load(c2, lib, now)] Self::s_load(c2, lib, now).0.ui.volume == c2.ui.volume
            && (c2.ui.volume <= VOLUME_MAX ==> volumes_ok(Self::s_load(c2, lib, now).2)) by {
            Self::lemma_load_keeps_volume(c2, lib, now);
        }
    }

    /// The volume never leaves 0 to 130 percent: a new player starts at 100, and no start
    /// or input takes a volume within those bounds out of them.
    #[verifier::spinoff_prover]
    #[verifier::rlimit(100)]
    pub proof fn law_volume_stays_within_bounds<P: Prints>(config: PlayerConfig, c: Controller, input: Input, lib: P, now: u64, epoch: i64)
        requires
            c.ui.volume <= VOLUME_MAX,
        ensures
            Self::s_new(config, now).ui.volume <= VOLUME_MAX,
            Self::s_start(c, lib, now).0.ui.volume <= VOLUME_MAX,
            Self::s_step(c, input, lib, now, epoch).0.ui.volume <= VOLUME_MAX,
    {
        Self::lemma_load_keeps_volume(c, lib, now);
        Self::lemma_load_keeps_volume(Controller { src: Source { start_at: 0, ..c.src }, ..c }, lib, now);
        if !c.src.exited {
            match input {
                Input::Key { key, repeat } => Self::lemma_on_key_keeps_volume(c, key, repeat, lib, now),
                Input::KeyUp(key) => Self::lemma_on_key_up_keeps_volume(c, key, now),
                Input::Button(b) => Self::lemma_on_button_keeps_volume(c, b, lib, now),
                Input::PickTrack(i) => Self::lemma_pick_audio_keeps_volume(c, i, now),
                Input::Resume(r) => Self::lemma_resume_keeps_volume(c, r, lib, now),
                Input::Tick => Self::lemma_on_tick_keeps_volume(c, lib, now, epoch),
                Input::SniffFailed { .. } | Input::PageFailed => Self::lemma_on_load_failed_keeps_volume(c, lib, now),
                Input::EpisodeCount(n) => Self::lemma_episode_count_keeps_volume(c, n, lib, now),
                Input::Playback(p) => Self::lemma_on_playback_keeps_volume(c, p, lib, now, epoch),
                Input::EngineError(_) => Self::lemma_on_engine_error_keeps_volume(c, lib, now),
                _ => {},
            }
        }
    }

    #[verifier::spinoff_prover]
    proof fn lemma_misc_volumes(c: Controller, subtitle: Option<String>, result: SniffResult, duration_ms: u64)
        requires
            c.ui.volume <= VOLUME_MAX,
        ensures
            volumes_ok(Self::s_start_library(c, subtitle).2),
            volumes_ok(Self::s_start_url(c, result).2),
            volumes_ok(Self::s_on_file_loaded(c, duration_ms).2),
            volumes_ok(Self::s_on_first_frame(c).2),
            volumes_ok(Self::s_page_ready(c).2),
            volumes_ok(Self::s_exit_nav(c).2),
            volumes_ok(Self::s_toggle_play(c).2),
    {
        lemma_volumes_concat();
        lemma_volumes_small();
    }

    #[verifier::spinoff_prover]
    #[verifier::rlimit(100)]
    proof fn lemma_dispatch_volumes<P: Prints>(c: Controller, input: Input, lib: P, now: u64, epoch: i64)
        requires
            c.ui.volume <= VOLUME_MAX,
        ensures
            volumes_ok(Self::s_dispatch(c, input, lib, now, epoch).2),
    {
        lemma_volumes_concat();
        lemma_volumes_small();
        match input {
            Input::Key { key, repeat } => Self::lemma_on_key_keeps_volume(c, key, repeat, lib, now),
            Input::KeyUp(key) => Self::lemma_on_key_up_keeps_volume(c, key, now),
            Input::Button(b) => Self::lemma_on_button_keeps_volume(c, b, lib, now),
            Input::PickTrack(i) => Self::lemma_pick_audio_keeps_volume(c, i, now),
            Input::Resume(r) => Self::lemma_resume_keeps_volume(c, r, lib, now),
            Input::Tick => Self::lemma_on_tick_keeps_volume(c, lib, now, epoch),
            Input::SniffFailed { .. } | Input::PageFailed => Self::lemma_on_load_failed_keeps_volume(c, lib, now),
            Input::EpisodeCount(n) => Self::lemma_episode_count_keeps_volume(c, n, lib, now),
            Input::Playback(p) => Self::lemma_on_playback_keeps_volume(c, p, lib, now, epoch),
            Input::EngineError(_) => Self::lemma_on_engine_error_keeps_volume(c, lib, now),
            Input::LibraryPrepared { seq, subtitle } => Self::lemma_misc_volumes(c, subtitle, arbitrary(), 0),
            Input::Sniffed { seq, result } => Self::lemma_misc_volumes(c, None, result, 0),
            Input::FileLoaded { duration_ms } => Self::lemma_misc_volumes(c, None, arbitrary(), duration_ms),
            _ => Self::lemma_misc_volumes(c, None, arbitrary(), 0),
        }
    }

    /// No command sets the volume outside 0 to 130 percent: starting a player, or any
    /// input to one whose volume is within those bounds, sets only volumes within them.
    pub proof fn law_volume_commands_within_bounds<P: Prints>(c: Controller, input: Input, lib: P, now: u64, epoch: i64)
        requires
            c.ui.volume <= VOLUME_MAX,
        ensures
            volumes_ok(Self::s_start(c, lib, now).2),
            volumes_ok(Self::s_step(c, input, lib, now, epoch).2),
    {
        Self::lemma_load_keeps_volume(c, lib, now);
        Self::lemma_load_keeps_volume(Controller { src: Source { start_at: 0, ..c.src }, ..c }, lib, now);
        if !c.src.exited {
            Self::lemma_dispatch_volumes(c, input, lib, now, epoch);
        }
    }

    /// The saved position is applied once per load, and only when it lies more than five
    /// seconds before the end (or the duration is not known yet).
    pub proof fn law_start_position_applied_once(c: Controller, duration_ms: u64, again_ms: u64)
        requires
            c.src.native_active,
            !c.src.start_applied,
        ensures
            ({
                let (c1, fx, ks) = Self::s_on_file_loaded(c, duration_ms);
                let seek = c.src.start_at > 0 && (duration_ms == 0 || c.src.start_at as int * 1000
                    + START_END_MARGIN_MS < duration_ms);
                &&& fx.len() == 0
                &&& ks == (if seek { seq![Command::SeekTo((c.src.start_at as int * 1000) as u64)] } else { seq![] })
                &&& Self::s_on_file_loaded(c1, again_ms) == (c1, Seq::<Effect>::empty(), Seq::<Command>::empty())
            }),
    {
    }

    /// One automatic reload covers a failed load; a second failure shows PLAYBACK FAILED
    /// without loading again.
    pub proof fn law_one_automatic_reload<P: Prints>(c: Controller, lib: P, now: u64)
        ensures
            ({
                let (c1, f1, k1) = Self::s_on_load_failed(c, lib, now);
                if c.src.retried {
                    c1.src.failed && f1.len() == 0 && c1.src.seq == c.src.seq
                } else {
                    c1.src.retried && c1.src.seq == seq_after(c.src.seq) && !c1.src.failed
                }
            }),
    {
        if !c.src.retried {
            let r = Controller { src: Source { retried: true, ..c.src }, ..c };
            let at = max_u32(r.src.start_at, secs_of(r.prog.playback.time_ms));
            let r1 = Controller { src: Source { start_at: at, ..r.src }, ..r };
            Self::law_load_asks_for_one_source(Self::s_show_hint(r1, Hint::Reloading, now), lib, now);
        }
    }

    /// NEXT stays within the season: it moves to the following episode only when the season
    /// has one, and never changes the season.
    pub proof fn law_next_stays_in_the_season<P: Prints>(c: Controller, lib: P, now: u64)
        ensures
            ({
                let (c1, f1, k1) = Self::s_play_next(c, lib, now);
                &&& c1.meta.season == c.meta.season
                &&& c1.meta.id == c.meta.id
                &&& if c.meta.media == MediaType::Tv && c.meta.episode < c.ep.episode_count {
                    c1.meta.episode == c.meta.episode + 1 && c1.src.start_at == 0
                } else {
                    c1 == c && f1.len() == 0 && k1.len() == 0
                }
            }),
    {
        if c.meta.media == MediaType::Tv && c.meta.episode < c.ep.episode_count {
            let episode = (c.meta.episode + 1) as u32;
            let c1 = Controller {
                meta: Meta { episode, ..c.meta },
                src: Source { start_at: 0, retried: false, library_failed: false, ..c.src },
                ..c
            };
            let c2 = Self::s_show_hint(c1, Hint::Next { season: c.meta.season, episode }, now);
            Self::law_load_asks_for_one_source(c2, lib, now);
            reveal(Controller::s_load);
            Self::lemma_load_begin_keeps(c2);
        }
    }

    /// QUALITY while a library print plays restarts at the next print of that item (the first
    /// after the last), remembers its quality and prepares it under a new attempt.
    pub proof fn law_quality_switches_to_the_next_print<P: Prints>(c: Controller, lib: P, now: u64, p: int)
        requires
            lib.prints_spec(c.meta.key_spec()).len() >= 2,
            distinct_labels(lib.prints_spec(c.meta.key_spec())),
            0 <= p < lib.prints_spec(c.meta.key_spec()).len(),
            c.src.library_entry == Some(lib.prints_spec(c.meta.key_spec())[p]),
        ensures
            ({
                let all = lib.prints_spec(c.meta.key_spec());
                let next = all[if p + 1 < all.len() { p + 1 } else { 0 }];
                let (c1, fx, ks) = Self::s_cycle_quality(c, lib, now);
                &&& c1.src.library_entry == Some(next)
                &&& entry_label(next) != entry_label(all[p])
                &&& fx[0] == Effect::SaveQuality(next.quality)
                &&& fx.last() == (Effect::PrepareLibrary { seq: c1.src.seq, entry: next })
            }),
    {
        let all = lib.prints_spec(c.meta.key_spec());
        law_quality_cycles_through_the_prints(all, p);
    }

    /// The volume moves by five percent a step and stays within 0 to 130 percent.
    pub proof fn law_volume_within_bounds(volume: u32, up: bool)
        requires
            volume <= VOLUME_MAX,
        ensures
            Self::stepped_volume(volume, up) <= VOLUME_MAX,
            up ==> Self::stepped_volume(volume, up) == if volume + 5 <= VOLUME_MAX { volume + 5 } else { VOLUME_MAX as int },
            !up ==> Self::stepped_volume(volume, up) == if volume >= 5 { volume - 5 } else { 0 },
    {
    }

    /// BACK on the resume dialog leaves the player without loading anything.
    pub proof fn law_back_while_asking_leaves<P: Prints>(c: Controller, lib: P, now: u64, epoch: i64)
        requires
            c.src.asking,
            !c.src.exited,
        ensures
            ({
                let (c1, fx, ks) = Self::s_step(c, Input::Key { key: Key::Back, repeat: 0 }, lib, now, epoch);
                &&& c1.src.exited
                &&& c1.src.seq == c.src.seq
                &&& fx == seq![Effect::Exit]
                &&& forall|i: int| 0 <= i < ks.len() ==> !((#[trigger] ks[i]) is PageLoad) && !(ks[i] is LoadUrl) && !(ks[i] is LoadLibrary)
            }),
    {
    }

    /// Progress is written when the end is reached, or when ten seconds passed since the last
    /// write; otherwise a sample writes nothing.
    pub proof fn law_progress_written_at_most_every_ten_seconds<P: Prints>(c: Controller, lib: P, now: u64, epoch: i64, at: u64)
        requires
            c.prog.last_write == Some(at),
            now >= at,
            now - at < PROGRESS_WRITE_MS,
            !c.prog.playback.ended,
            c.prog.playback.time_ms as int + 1000 < c.prog.playback.duration_ms,
        ensures
            Self::s_progress(c, lib, now, epoch).1.len() == 0,
    {
    }
}


/// Time for the player: `now_ms` is monotonic; `epoch_ms` stamps progress records.
pub trait Clock {
    fn now_ms(&self) -> u64;

    fn epoch_ms(&self) -> i64;
}

/// A point of the monotonic clock.
#[verifier::external_type_specification]
#[verifier::external_body]
pub struct ExInstant(std::time::Instant);

/// A point of the system clock.
#[verifier::external_type_specification]
#[verifier::external_body]
pub struct ExSystemTime(std::time::SystemTime);

/// `Instant::now`. Nothing is stated of the result: it is the time.
#[verifier::external_body]
fn instant_now() -> (t: std::time::Instant) {
    std::time::Instant::now()
}

/// `Instant::elapsed`. Nothing is stated of the result: it depends on the time.
#[verifier::external_body]
fn elapsed(origin: &std::time::Instant) -> (d: std::time::Duration) {
    origin.elapsed()
}

/// `Duration::as_millis`. Nothing is stated of the result.
#[verifier::external_body]
fn as_millis(d: &std::time::Duration) -> (ms: u128) {
    d.as_millis()
}

/// `SystemTime::now`. Nothing is stated of the result: it is the time.
#[verifier::external_body]
fn system_now() -> (t: std::time::SystemTime) {
    std::time::SystemTime::now()
}

/// `SystemTime::duration_since(UNIX_EPOCH)`, `None` for a time before the epoch. Nothing is
/// stated of the result: it depends on the time.
#[verifier::external_body]
fn since_epoch(t: &std::time::SystemTime) -> (d: Option<std::time::Duration>) {
    t.duration_since(std::time::UNIX_EPOCH).ok()
}

/// The real clock.
pub struct SystemClock {
    origin: std::time::Instant,
}

impl SystemClock {
    /// A clock whose `now_ms` counts from now.
    pub fn new() -> (c: SystemClock) {
        SystemClock { origin: instant_now() }
    }
}

/// Milliseconds as a `u64`, the largest when they do not fit.
pub open spec fn clamp_u64(ms: u128) -> u64 {
    if ms > u64::MAX as u128 { u64::MAX } else { ms as u64 }
}

impl Clock for SystemClock {
    /// Milliseconds since the clock was made, the largest `u64` once they no longer fit.
    fn now_ms(&self) -> (ms: u64) {
        let d = elapsed(&self.origin);
        let m = as_millis(&d);
        if m > u64::MAX as u128 {
            u64::MAX
        } else {
            m as u64
        }
    }

    /// Milliseconds since the Unix epoch; 0 before the epoch or when they do not fit, so never
    /// negative.
    fn epoch_ms(&self) -> (ms: i64)
        ensures
            ms >= 0,
    {
        let t = system_now();
        match since_epoch(&t) {
            Some(d) => {
                let m = as_millis(&d);
                if m > i64::MAX as u128 {
                    0
                } else {
                    m as i64
                }
            },
            None => 0,
        }
    }
}

} // verus!
