//! The mpv engine's pure parts: the `flox://` URL of a library print, the subtitle command,
//! the error a cancelled stream read turns into, and the mapping of mpv's reports to
//! controller inputs.
use vstd::prelude::*;

use crate::model::{entry_label, Entry, MediaType};
use crate::player::controller::{AudioOption, Input, Playback, SubTrack};
use crate::text::{decimal, push_decimal, push_str, string_of};

verus! {

/// The scheme of library print URLs.
pub const PROTOCOL: &'static str = "flox";

/// The UTF-8 encoding of a character.
pub open spec fn utf8(c: char) -> Seq<u8> {
    let v = c as int;
    if v < 0x80 {
        seq![v as u8]
    } else if v < 0x800 {
        seq![(0xC0 + v / 64) as u8, (0x80 + v % 64) as u8]
    } else if v < 0x10000 {
        seq![(0xE0 + v / 4096) as u8, (0x80 + (v / 64) % 64) as u8, (0x80 + v % 64) as u8]
    } else {
        seq![(0xF0 + v / 262144) as u8, (0x80 + (v / 4096) % 64) as u8, (0x80 + (v / 64) % 64) as u8, (0x80 + v % 64) as u8]
    }
}

/// An uppercase hex digit.
pub open spec fn hex_digit(d: int) -> char {
    if d < 10 { ('0' as int + d) as char } else { ('A' as int + d - 10) as char }
}

/// A byte a URL path segment keeps as it is: ASCII letters and digits, `-`, `.`, `_`, `~`.
pub open spec fn unreserved(b: u8) -> bool {
    (0x30 <= b <= 0x39) || (0x41 <= b <= 0x5A) || (0x61 <= b <= 0x7A) || b == 0x2D || b == 0x2E || b == 0x5F || b == 0x7E
}

/// One byte of a path segment: itself when unreserved, else `%XX`.
pub open spec fn encode_byte(b: u8) -> Seq<char> {
    if unreserved(b) {
        seq![b as char]
    } else {
        seq!['%', hex_digit(b as int / 16), hex_digit(b as int % 16)]
    }
}

/// The percent-encoding of some characters' UTF-8 bytes.
pub open spec fn encode_chars(s: Seq<char>) -> Seq<char>
    decreases s.len(),
{
    if s.len() == 0 {
        Seq::empty()
    } else {
        encode_chars(s.drop_last()) + encode_bytes(utf8(s.last()))
    }
}

/// The percent-encoding of some bytes.
pub open spec fn encode_bytes(b: Seq<u8>) -> Seq<char>
    decreases b.len(),
{
    if b.len() == 0 {
        Seq::empty()
    } else {
        encode_bytes(b.drop_last()) + encode_byte(b.last())
    }
}

fn hex_exec(d: u8) -> (c: char)
    requires
        d < 16,
    ensures
        c == hex_digit(d as int),
{
    if d < 10 {
        (0x30u8 + d) as char
    } else {
        (0x41u8 + d - 10) as char
    }
}

fn push_byte(out: &mut Vec<char>, b: u8)
    ensures
        final(out)@ == old(out)@ + encode_byte(b),
{
    if (0x30 <= b && b <= 0x39) || (0x41 <= b && b <= 0x5A) || (0x61 <= b && b <= 0x7A) || b == 0x2D || b == 0x2E || b == 0x5F || b == 0x7E {
        out.push(b as char);
    } else {
        out.push('%');
        out.push(hex_exec(b / 16));
        out.push(hex_exec(b % 16));
    }
    assert(final(out)@ =~= old(out)@ + encode_byte(b));
}

fn utf8_exec(c: char) -> (r: Vec<u8>)
    ensures
        r@ == utf8(c),
{
    let v = c as u32;
    if v < 0x80 {
        vec![v as u8]
    } else if v < 0x800 {
        vec![(0xC0 + v / 64) as u8, (0x80 + v % 64) as u8]
    } else if v < 0x10000 {
        vec![(0xE0 + v / 4096) as u8, (0x80 + (v / 64) % 64) as u8, (0x80 + v % 64) as u8]
    } else {
        vec![(0xF0 + v / 262144) as u8, (0x80 + (v / 4096) % 64) as u8, (0x80 + (v / 64) % 64) as u8, (0x80 + v % 64) as u8]
    }
}

/// Percent-encodes everything but unreserved characters, for one URL path segment.
pub fn url_segment(s: &str) -> (r: String)
    ensures
        r@ == encode_chars(s@),
{
    let cs = crate::text::chars_of(s);
    let mut out: Vec<char> = Vec::new();
    let mut i: usize = 0;
    while i < cs.len()
        invariant
            i <= cs@.len(),
            out@ == encode_chars(cs@.take(i as int)),
        decreases cs@.len() - i,
    {
        let bytes = utf8_exec(cs[i]);
        let ghost start = out@;
        let mut k: usize = 0;
        while k < bytes.len()
            invariant
                k <= bytes@.len(),
                out@ == start + encode_bytes(bytes@.take(k as int)),
            decreases bytes@.len() - k,
        {
            assert(bytes@.take(k + 1).drop_last() =~= bytes@.take(k as int));
            push_byte(&mut out, bytes[k]);
            k = k + 1;
            assert(out@ =~= start + encode_bytes(bytes@.take(k as int)));
        }
        assert(bytes@.take(bytes@.len() as int) =~= bytes@);
        assert(cs@.take(i + 1).drop_last() =~= cs@.take(i as int));
        i = i + 1;
    }
    assert(cs@.take(cs@.len() as int) =~= cs@);
    string_of(&out)
}

/// `flox://<tmdb>/<movie|tv>/<season>/<episode>/<label>` for a library print.
pub open spec fn flox_url_spec(entry: Entry) -> Seq<char> {
    let k = entry.key;
    "flox://"@ + decimal(k.tmdb as nat) + seq!['/'] + (match k.media {
        MediaType::Movie => "movie"@,
        MediaType::Tv => "tv"@,
    }) + seq!['/'] + decimal(k.season as nat) + seq!['/'] + decimal(k.episode as nat) + seq!['/']
        + encode_chars(entry_label(entry))
}

/// `flox://<tmdb>/<movie|tv>/<season>/<episode>/<label>` for a library print.
pub fn flox_url(entry: &Entry) -> (r: String)
    ensures
        r@ == flox_url_spec(*entry),
{
    let k = entry.key;
    let mut out: Vec<char> = Vec::new();
    push_str(&mut out, "flox://");
    push_decimal(&mut out, k.tmdb);
    out.push('/');
    match k.media {
        MediaType::Movie => push_str(&mut out, "movie"),
        MediaType::Tv => push_str(&mut out, "tv"),
    }
    out.push('/');
    push_decimal(&mut out, k.season as u64);
    out.push('/');
    push_decimal(&mut out, k.episode as u64);
    out.push('/');
    let label = entry.label();
    let seg = url_segment(label.as_str());
    push_str(&mut out, seg.as_str());
    assert(out@ =~= flox_url_spec(*entry));
    string_of(&out)
}

/// `sub-add <path> auto English en` for a library print's subtitle.
pub fn library_subtitle_command(path: &str) -> (r: Vec<String>)
    ensures
        r@.len() == 5,
        r@[0]@ == "sub-add"@,
        r@[1]@ == path@,
        r@[2]@ == "auto"@,
        r@[3]@ == "English"@,
        r@[4]@ == "en"@,
{
    vec![
        crate::text::owned("sub-add"),
        crate::text::owned(path),
        crate::text::owned("auto"),
        crate::text::owned("English"),
        crate::text::owned("en"),
    ]
}

/// An I/O error, carried through unchanged.
#[verifier::external_type_specification]
#[verifier::external_body]
pub struct ExIoError(std::io::Error);

/// Whether an I/O error's kind (`io::Error::kind`) is `ErrorKind::Interrupted`.
pub uninterp spec fn interrupted(e: std::io::Error) -> bool;

/// `io::Error::kind`, compared with `ErrorKind::Interrupted`: the result is named
/// [`interrupted`] of the error.
#[verifier::external_body]
fn is_interrupted(e: &std::io::Error) -> (r: bool)
    ensures
        r == interrupted(*e),
{
    e.kind() == std::io::ErrorKind::Interrupted
}

/// `io::Error::other("stream cancelled")`: an error of kind `ErrorKind::Other`, so not
/// [`interrupted`]. Nothing more is stated of it.
#[verifier::external_body]
fn stream_cancelled() -> (e: std::io::Error)
    ensures
        !interrupted(e),
{
    std::io::Error::other("stream cancelled")
}

/// What to do with a failed stream read.
#[derive(Clone, Copy, Debug, PartialEq, Eq, Structural)]
pub enum ReadErrorAction {
    /// Pass the error on as it is.
    Keep,
    /// Replace it with a plain "stream cancelled" failure.
    Cancel,
}

/// An interrupted read is a cancelled stream: it becomes a plain failure; any other error is
/// kept.
pub fn read_error_action(interrupted: bool) -> (a: ReadErrorAction)
    ensures
        a == (if interrupted { ReadErrorAction::Cancel } else { ReadErrorAction::Keep }),
{
    if interrupted {
        ReadErrorAction::Cancel
    } else {
        ReadErrorAction::Keep
    }
}

/// A cancelled stream fails every later read with `Interrupted`, which the stream callback
/// would retry forever; this makes it a plain "stream cancelled" failure of another kind.
/// Any other error passes unchanged.
pub fn fatal_interrupt(e: std::io::Error) -> (r: std::io::Error)
    ensures
        !interrupted(r),
        !interrupted(e) ==> r == e,
{
    match read_error_action(is_interrupted(&e)) {
        ReadErrorAction::Cancel => stream_cancelled(),
        ReadErrorAction::Keep => e,
    }
}

/// What mpv reports, as the engine reads it: times in milliseconds, the track list
/// already turned into the player's tracks.
#[derive(Debug, PartialEq, Eq)]
pub enum MpvSignal {
    StartFile,
    FileLoaded,
    PlaybackRestart,
    /// `end-file`, with its reason (`eof`, `stop`, `error`...) and mpv's error code.
    EndFile { reason: String, error: i32 },
    /// `time-pos`.
    Time(u64),
    /// `duration`.
    Duration(u64),
    /// `pause`.
    Pause(bool),
    /// `eof-reached`.
    Eof(bool),
    /// `track-list`: the audio options, the subtitle tracks and the selected ids.
    TrackList { audio: Vec<AudioOption>, subs: Vec<SubTrack>, aid: Option<i64>, sid: Option<i64> },
    /// `demuxer-cache-state`: where the cache ends.
    CacheEnd(u64),
    /// Any other property change, idle or shutdown.
    Other,
}

/// Turns mpv signals into controller inputs and keeps what the overlay needs beyond them.
#[derive(Debug, PartialEq, Eq)]
pub struct EventMapper {
    pub playback: Playback,
    /// The first frame after this load was reported.
    pub first_frame: bool,
    /// The end of the demuxer cache in milliseconds (the seek bar's buffered band).
    pub buffered_ms: u64,
}

/// An integer in decimal, with a minus sign when negative.
pub open spec fn signed_decimal(n: int) -> Seq<char> {
    if n < 0 { seq!['-'] + decimal((-n) as nat) } else { decimal(n as nat) }
}

/// `mpv load failed (<error>)`.
pub open spec fn load_failed_text(error: i32) -> Seq<char> {
    "mpv load failed ("@ + signed_decimal(error as int) + ")"@
}

/// The playback after a property change, or `None` when the signal is no playback property.
pub open spec fn changed_playback(p: Playback, signal: MpvSignal) -> Option<Playback> {
    match signal {
        MpvSignal::Time(t) => Some(Playback { time_ms: t, ..p }),
        MpvSignal::Duration(d) => Some(Playback { duration_ms: d, ..p }),
        MpvSignal::Pause(b) => Some(Playback { paused: b, ..p }),
        MpvSignal::Eof(b) => Some(Playback { ended: b, ..p }),
        _ => None,
    }
}

impl EventMapper {
    /// Nothing reported yet.
    pub fn new() -> (r: EventMapper)
        ensures
            r == (EventMapper { playback: Playback { time_ms: 0, duration_ms: 0, paused: false, ended: false }, first_frame: false, buffered_ms: 0 }),
    {
        EventMapper { playback: Playback { time_ms: 0, duration_ms: 0, paused: false, ended: false }, first_frame: false, buffered_ms: 0 }
    }

    /// The end of the demuxer cache in milliseconds.
    pub fn buffered(&self) -> (r: u64)
        ensures
            r == self.buffered_ms,
    {
        self.buffered_ms
    }

    /// The last reported playback state.
    pub fn playback(&self) -> (r: Playback)
        ensures
            r == self.playback,
    {
        self.playback
    }

    /// The inputs one signal produces: a new load starts over; `file-loaded` passes the known
    /// duration; the first restart of a load is its first frame; a failed `end-file` is an
    /// engine error; a playback property reports the playback when it changed; the track
    /// list always reports the tracks.
    pub fn map(&mut self, signal: MpvSignal) -> (r: Vec<Input>)
        ensures
            match signal {
                MpvSignal::StartFile => {
                    &&& r@.len() == 0
                    &&& final(self).playback == (Playback { time_ms: 0, duration_ms: 0, paused: false, ended: false })
                    &&& !final(self).first_frame
                    &&& final(self).buffered_ms == 0
                },
                MpvSignal::FileLoaded => {
                    &&& *final(self) == *old(self)
                    &&& r@ == seq![Input::FileLoaded { duration_ms: old(self).playback.duration_ms }]
                },
                MpvSignal::PlaybackRestart => {
                    &&& final(self).playback == old(self).playback
                    &&& final(self).buffered_ms == old(self).buffered_ms
                    &&& final(self).first_frame
                    &&& r@ == if old(self).first_frame { Seq::<Input>::empty() } else { seq![Input::FirstFrame] }
                },
                MpvSignal::EndFile { reason, error } => {
                    &&& *final(self) == *old(self)
                    &&& if reason@ == "error"@ {
                        r@.len() == 1 && (r@[0] matches Input::EngineError(m) && m@ == load_failed_text(error))
                    } else {
                        r@.len() == 0
                    }
                },
                MpvSignal::TrackList { audio, subs, aid, sid } => {
                    &&& *final(self) == *old(self)
                    &&& r@ == seq![Input::Tracks { audio, subs, aid, sid }]
                },
                MpvSignal::CacheEnd(end) => {
                    &&& final(self).playback == old(self).playback
                    &&& final(self).first_frame == old(self).first_frame
                    &&& final(self).buffered_ms == end
                    &&& r@.len() == 0
                },
                MpvSignal::Other => {
                    &&& *final(self) == *old(self)
                    &&& r@.len() == 0
                },
                _ => {
                    let p = changed_playback(old(self).playback, signal).unwrap();
                    &&& final(self).playback == p
                    &&& final(self).first_frame == old(self).first_frame
                    &&& final(self).buffered_ms == old(self).buffered_ms
                    &&& r@ == if p == old(self).playback { Seq::<Input>::empty() } else { seq![Input::Playback(p)] }
                },
            },
    {
        let before = self.playback;
        match signal {
            MpvSignal::StartFile => {
                self.playback = Playback { time_ms: 0, duration_ms: 0, paused: false, ended: false };
                self.first_frame = false;
                self.buffered_ms = 0;
                return Vec::new();
            },
            MpvSignal::FileLoaded => {
                return vec![Input::FileLoaded { duration_ms: self.playback.duration_ms }];
            },
            MpvSignal::PlaybackRestart => {
                if self.first_frame {
                    return Vec::new();
                }
                self.first_frame = true;
                return vec![Input::FirstFrame];
            },
            MpvSignal::EndFile { reason, error } => {
                let is_error = crate::text::same_text(reason.as_str(), "error");
                if is_error {
                    let mut out: Vec<char> = Vec::new();
                    push_str(&mut out, "mpv load failed (");
                    if error < 0 {
                        out.push('-');
                        push_decimal(&mut out, (-(error as i64)) as u64);
                    } else {
                        push_decimal(&mut out, error as u64);
                    }
                    push_str(&mut out, ")");
                    return vec![Input::EngineError(string_of(&out))];
                }
                return Vec::new();
            },
            MpvSignal::TrackList { audio, subs, aid, sid } => {
                return vec![Input::Tracks { audio, subs, aid, sid }];
            },
            MpvSignal::CacheEnd(end) => {
                self.buffered_ms = end;
                return Vec::new();
            },
            MpvSignal::Other => {
                return Vec::new();
            },
            MpvSignal::Time(t) => {
                self.playback.time_ms = t;
            },
            MpvSignal::Duration(d) => {
                self.playback.duration_ms = d;
            },
            MpvSignal::Pause(b) => {
                self.playback.paused = b;
            },
            MpvSignal::Eof(b) => {
                self.playback.ended = b;
            },
        }
        if self.playback == before {
            Vec::new()
        } else {
            vec![Input::Playback(self.playback)]
        }
    }
}

} // verus!
