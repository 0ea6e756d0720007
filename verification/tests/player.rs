use flox_app::model::{Entry, EpisodeKey, MediaType};
use flox_app::player::controller::{
    order_captions, seek_hint, seek_step, stamp, stream_headers, AudioOption, Button, Caption, Command,
    Controller, Direction, Effect, Input, Key, Meta, PageAction, Phase, Playback, PlayerConfig, PrintTable,
    ResumeMode, Settings, SniffResult, SubTrack, TracksPanel, HINT_MS, LONG_PRESS_MS, PROGRESS_TICK_MS,
    WATCHDOG_MS,
};
use flox_app::player::mpv_engine::{
    fatal_interrupt, flox_url, library_subtitle_command, read_error_action, url_segment, EventMapper, MpvSignal,
    ReadErrorAction,
};
use flox_app::player::view::{
    media_key, MediaKey,
    button_slot, hint_text, pointer_target, stamp_text, visible_buttons, OverlayNav, RepeatCounter, Target,
    BACK, BUTTONS, RESUME, SEEK, TRACKS,
};
use flox_app::focus::ZoneId;
use std::io;

// ---- helpers ----

#[test]
fn stamp_is_zero_padded() {
    assert_eq!(stamp(0), "00:00");
    assert_eq!(stamp(65), "01:05");
    assert_eq!(stamp(3723), "1:02:03");
}

#[test]
fn seek_step_accelerates_with_repeats() {
    assert_eq!(seek_step(10, 0), 10);
    assert_eq!(seek_step(10, 3), 10);
    assert_eq!(seek_step(10, 4), 30);
    assert_eq!(seek_step(10, 9), 30);
    assert_eq!(seek_step(10, 10), 60);
    assert_eq!(seek_hint(10), "+10 S");
    assert_eq!(seek_hint(-60), "-60 S");
}

#[test]
fn headers_add_vidlink_and_drop_reserved() {
    let h = stream_headers(&vec![
        ("Cookie".to_owned(), "c".to_owned()),
        ("user-agent".to_owned(), "u".to_owned()),
        ("referer".to_owned(), "https://other/".to_owned()),
        ("X-A".to_owned(), "1".to_owned()),
    ]);
    assert_eq!(
        h,
        vec![
            ("referer".to_owned(), "https://other/".to_owned()),
            ("Origin".to_owned(), "https://vidlink.pro".to_owned()),
            ("X-A".to_owned(), "1".to_owned()),
        ]
    );
}

fn cap(l: &str, english_iso: Option<&str>, iso1: &str) -> Caption {
    Caption {
        url: format!("https://c/{l}.vtt"),
        language: l.to_owned(),
        kind: "vtt".to_owned(),
        english_iso: english_iso.map(str::to_owned),
        iso1: iso1.to_owned(),
    }
}

#[test]
fn captions_put_the_preferred_language_first() {
    let out = order_captions(&vec![cap("Spanish", Some("es"), "Spanish"), cap("English", Some("en"), "English"), cap("fr", None, "fr")], "en");
    let langs: Vec<&str> = out.iter().map(|c| c.language.as_str()).collect();
    assert_eq!(langs, ["English", "Spanish", "fr"]);
}

#[test]
fn cancelled_reads_are_fatal() {
    let e = fatal_interrupt(io::Error::from(io::ErrorKind::Interrupted));
    assert_ne!(e.kind(), io::ErrorKind::Interrupted);
    let e = fatal_interrupt(io::Error::from(io::ErrorKind::TimedOut));
    assert_eq!(e.kind(), io::ErrorKind::TimedOut);
}

fn entry(key: EpisodeKey, quality: &str, codec: &str) -> Entry {
    Entry { key, quality: quality.to_owned(), codec: codec.to_owned(), size: 10, newest_message_id: 1 }
}

#[test]
fn flox_urls_encode_the_label() {
    assert_eq!(flox_url(&entry(EpisodeKey::episode(1399, 1, 3), "2160p DV", "hevc")), "flox://1399/tv/1/3/2160p%20DV%20hevc");
    assert_eq!(flox_url(&entry(EpisodeKey::movie(27205), "1080p", "h264")), "flox://27205/movie/0/0/1080p%20h264");
    assert_eq!(url_segment("a/é~"), "a%2F%C3%A9~");
    assert_eq!(
        library_subtitle_command("/tmp/s.srt"),
        vec!["sub-add".to_owned(), "/tmp/s.srt".to_owned(), "auto".to_owned(), "English".to_owned(), "en".to_owned()]
    );
}

// ---- the rig ----

struct Rig {
    c: Controller,
    now: u64,
    lib: PrintTable,
    calls: Vec<Command>,
    fail_loads: bool,
}

fn tv_meta(episode: u32) -> Meta {
    Meta { id: 1399, media: MediaType::Tv, title: "Show".to_owned(), poster: Some("/p.jpg".to_owned()), season: 1, episode }
}

fn movie_meta() -> Meta {
    Meta { id: 550, media: MediaType::Movie, title: "Film".to_owned(), poster: None, season: 0, episode: 0 }
}

fn rig_with(meta: Meta, start_at: u32, settings: Settings) -> Rig {
    let now = 1_000;
    let c = Controller::new(PlayerConfig { meta, start_at, settings, ui_language: "en".to_owned() }, now);
    Rig { c, now, lib: PrintTable::default(), calls: Vec::new(), fail_loads: false }
}

fn rig(meta: Meta, start_at: u32) -> Rig {
    rig_with(meta, start_at, Settings::default())
}

impl Rig {
    /// Runs the commands like the engine: a refused load answers with an engine error and
    /// drops the rest of the batch.
    fn run(&mut self, out: flox_app::player::controller::Output) -> Vec<Effect> {
        let mut effects = out.effects;
        for cmd in out.commands {
            let load = matches!(cmd, Command::LoadLibrary { .. } | Command::LoadUrl { .. });
            self.calls.push(cmd);
            if load && self.fail_loads {
                let more = self.handle(Input::EngineError("refused".to_owned()));
                effects.extend(more);
                break;
            }
        }
        effects
    }
    fn start(&mut self) -> Vec<Effect> {
        let out = self.c.start(&self.lib, self.now);
        self.run(out)
    }
    fn handle(&mut self, input: Input) -> Vec<Effect> {
        let out = self.c.handle(input, &self.lib, self.now, 1_700_000_000_000);
        self.run(out)
    }
    fn clear(&mut self) {
        self.calls.clear();
    }
    fn key(&mut self, key: Key) -> Vec<Effect> {
        self.handle(Input::Key { key, repeat: 0 })
    }
    fn tick(&mut self, ms: u64) -> Vec<Effect> {
        self.now += ms;
        self.handle(Input::Tick)
    }
    fn seq(effects: &[Effect]) -> u64 {
        effects
            .iter()
            .find_map(|e| match e {
                Effect::Sniff { seq, .. } | Effect::PrepareLibrary { seq, .. } => Some(*seq),
                _ => None,
            })
            .unwrap_or(0)
    }
    fn sniff_ok(&mut self, seq: u64) -> Vec<Effect> {
        self.handle(Input::Sniffed {
            seq,
            result: SniffResult {
                url: "https://cdn/x.m3u8".to_owned(),
                headers: vec![("X-Token".to_owned(), "t".to_owned())],
                captions: Vec::new(),
            },
        })
    }
    fn playing(&mut self) {
        self.handle(Input::FileLoaded { duration_ms: 3_000_000 });
        self.handle(Input::FirstFrame);
        self.handle(Input::Playback(Playback { time_ms: 100_000, duration_ms: 3_000_000, paused: false, ended: false }));
        self.clear();
    }
    /// Starts on the sniffed path and shows the first frame.
    fn native_url(&mut self) {
        let fx = self.start();
        self.sniff_ok(Rig::seq(&fx));
        self.playing();
    }
    /// Starts on the library path and shows the first frame.
    fn native_library(&mut self) {
        self.lib.ready = true;
        let fx = self.start();
        self.handle(Input::LibraryPrepared { seq: Rig::seq(&fx), subtitle: None });
        self.playing();
    }
    fn end(&mut self) -> Vec<Effect> {
        self.handle(Input::Playback(Playback { time_ms: 3_000_000, duration_ms: 3_000_000, paused: false, ended: true }))
    }
    fn hint(&self) -> Option<String> {
        self.c.view(&self.lib).hint
    }
    fn sniff_url(fx: &[Effect]) -> Option<String> {
        fx.iter().find_map(|e| match e {
            Effect::Sniff { page, .. } => Some(page.url()),
            _ => None,
        })
    }
}

fn sub(id: i64, title: Option<&str>, language_name: Option<&str>) -> SubTrack {
    SubTrack { id, title: title.map(str::to_owned), language_name: language_name.map(str::to_owned) }
}

fn audio(ids: &[i64], label: &str, code: &str) -> AudioOption {
    AudioOption { ids: ids.to_vec(), label: label.to_owned(), language_code: Some(code.to_owned()) }
}

fn ask() -> Settings {
    Settings { resume_mode: ResumeMode::Ask, ..Settings::default() }
}

// ---- resume ----

#[test]
fn resume_always_starts_at_the_saved_position() {
    let mut r = rig(movie_meta(), 600);
    let fx = r.start();
    assert_eq!(r.c.phase(), Phase::Loading);
    assert!(Rig::sniff_url(&fx).unwrap().ends_with("&startAt=600"));
}

#[test]
fn resume_never_starts_over() {
    let mut r = rig_with(movie_meta(), 600, Settings { resume_mode: ResumeMode::Never, ..Settings::default() });
    let fx = r.start();
    assert_eq!(r.c.start_at(), 0);
    assert!(!Rig::sniff_url(&fx).unwrap().contains("startAt"));
}

#[test]
fn resume_ask_shows_the_dialog_and_resumes() {
    let mut r = rig_with(movie_meta(), 754, ask());
    assert!(r.start().is_empty());
    let v = r.c.view(&r.lib);
    assert_eq!(v.phase, Phase::Asking);
    assert_eq!(v.resume_label.as_deref(), Some("Resume from 12:34"));
    let fx = r.handle(Input::Resume(true));
    assert_eq!(r.c.start_at(), 754);
    assert!(matches!(fx.as_slice(), [Effect::Sniff { .. }]));
}

#[test]
fn resume_ask_start_over_resets_the_position() {
    let mut r = rig_with(movie_meta(), 754, ask());
    r.start();
    r.handle(Input::Resume(false));
    assert_eq!(r.c.start_at(), 0);
    assert_eq!(r.c.phase(), Phase::Loading);
}

#[test]
fn resume_ask_back_leaves_the_player() {
    let mut r = rig_with(movie_meta(), 754, ask());
    r.start();
    let fx = r.key(Key::Back);
    assert!(fx.contains(&Effect::Exit));
    assert_eq!(r.c.phase(), Phase::Exited);
    assert!(!fx.iter().any(|e| matches!(e, Effect::Sniff { .. })));
}

#[test]
fn no_saved_position_skips_the_dialog() {
    let mut r = rig_with(movie_meta(), 0, ask());
    r.start();
    assert_eq!(r.c.phase(), Phase::Loading);
}

// ---- sources ----

#[test]
fn library_is_used_when_ready_with_an_entry() {
    let mut r = rig(tv_meta(2), 90);
    let key = EpisodeKey::episode(1399, 1, 2);
    r.lib.ready = true;
    r.lib.entries.push(entry(key, "1080p", "h264"));
    let fx = r.start();
    assert!(fx.iter().any(|e| matches!(e, Effect::PrepareLibrary { entry, .. } if entry.quality == "1080p")));
    r.handle(Input::LibraryPrepared { seq: Rig::seq(&fx), subtitle: Some("/tmp/s.srt".to_owned()) });
    assert_eq!(
        r.calls[1..],
        [
            Command::LoadLibrary { entry: entry(key, "1080p", "h264"), subtitle: Some("/tmp/s.srt".to_owned()), start: 90 },
            Command::SetSpeed(100),
        ]
    );
}

#[test]
fn library_prefers_the_saved_quality_else_the_highest() {
    let key = EpisodeKey::movie(550);
    let mut r = rig_with(movie_meta(), 0, Settings { quality: Some("1080p".to_owned()), ..Settings::default() });
    r.lib.ready = true;
    r.lib.entries.extend([entry(key, "2160p DV", "hevc"), entry(key, "1080p", "h264")]);
    let fx = r.start();
    assert!(fx.iter().any(|e| matches!(e, Effect::PrepareLibrary { entry, .. } if entry.quality == "1080p")));

    let mut r = rig(movie_meta(), 0);
    r.lib.ready = true;
    r.lib.entries.extend([entry(key, "2160p DV", "hevc"), entry(key, "1080p", "h264")]);
    let fx = r.start();
    assert!(fx.iter().any(|e| matches!(e, Effect::PrepareLibrary { entry, .. } if entry.quality == "2160p DV")));
}

#[test]
fn page_is_used_when_telegram_is_not_ready() {
    let mut r = rig(tv_meta(2), 0);
    r.lib.entries.push(entry(EpisodeKey::episode(1399, 1, 2), "1080p", "h264"));
    let fx = r.start();
    assert_eq!(
        Rig::sniff_url(&fx).unwrap(),
        "https://vidlink.pro/tv/1399/1/2?autoplay=true&primaryColor=fafafa&nextbutton=false"
    );
    assert!(fx.contains(&Effect::FetchEpisodeCount { tmdb: 1399, season: 1 }));
}

#[test]
fn sniffed_stream_plays_natively_with_headers() {
    let mut r = rig(movie_meta(), 42);
    let fx = r.start();
    r.sniff_ok(Rig::seq(&fx));
    let Command::LoadUrl { result, preferred, start } = &r.calls[1] else {
        panic!("expected load_url, got {:?}", r.calls);
    };
    assert_eq!(result.url, "https://cdn/x.m3u8");
    assert_eq!(*start, 42);
    assert_eq!(preferred, "en");
    assert_eq!(stream_headers(&result.headers).len(), 3);
    assert_eq!(r.calls[2], Command::SetSpeed(100));
}

#[test]
fn stale_async_results_are_ignored() {
    let mut r = rig(movie_meta(), 0);
    let fx = r.start();
    let seq = Rig::seq(&fx);
    r.key(Key::Reload);
    r.clear();
    r.sniff_ok(seq);
    r.handle(Input::SniffFailed { seq });
    assert!(r.calls.is_empty());
    assert_eq!(r.c.phase(), Phase::Loading);
}

#[test]
fn library_failure_falls_back_to_the_page_for_this_episode() {
    let mut r = rig(movie_meta(), 0);
    r.lib.entries.push(entry(EpisodeKey::movie(550), "1080p", "h264"));
    r.native_library();
    r.handle(Input::Playback(Playback { time_ms: 300_000, duration_ms: 3_000_000, paused: false, ended: false }));
    let fx = r.handle(Input::EngineError("demux".to_owned()));
    assert!(Rig::sniff_url(&fx).unwrap().ends_with("startAt=300"));
    assert_eq!(r.hint().as_deref(), Some("RELOADING PLAYER"));
    let fx = r.key(Key::Reload);
    assert!(fx.iter().any(|e| matches!(e, Effect::Sniff { .. })));
}

#[test]
fn synchronous_library_load_failure_falls_back() {
    let mut r = rig(movie_meta(), 0);
    r.lib.ready = true;
    r.lib.entries.push(entry(EpisodeKey::movie(550), "1080p", "h264"));
    r.fail_loads = true;
    let fx = r.start();
    let fx = r.handle(Input::LibraryPrepared { seq: Rig::seq(&fx), subtitle: None });
    assert!(fx.iter().any(|e| matches!(e, Effect::Sniff { .. })));
}

#[test]
fn native_error_moves_to_the_page_player_for_the_session() {
    let mut r = rig(movie_meta(), 0);
    r.native_url();
    r.handle(Input::EngineError("http 403".to_owned()));
    assert!(r.calls.iter().any(|c| matches!(c, Command::PageLoad(p) if p.url()
        == "https://vidlink.pro/movie/550?autoplay=true&primaryColor=fafafa&nextbutton=false&startAt=100")));
    assert_eq!(r.c.phase(), Phase::Page);
    r.clear();
    r.key(Key::Reload);
    assert!(matches!(r.calls.last(), Some(Command::PageLoad(_))));
}

#[test]
fn native_error_before_the_first_frame_also_uses_the_page() {
    let mut r = rig(movie_meta(), 0);
    let fx = r.start();
    r.sniff_ok(Rig::seq(&fx));
    r.handle(Input::EngineError("codec".to_owned()));
    assert_eq!(r.c.phase(), Phase::Page);
    assert!(r.hint().is_none());
}

#[test]
fn late_engine_errors_after_stop_are_ignored() {
    let mut r = rig(movie_meta(), 0);
    r.native_url();
    r.key(Key::Reload);
    r.clear();
    let fx = r.handle(Input::EngineError("late".to_owned()));
    assert!(fx.is_empty());
    assert!(r.calls.is_empty());
}

// ---- watchdog, reload and failure ----

#[test]
fn watchdog_reloads_once_then_fails_and_center_retries() {
    let mut r = rig(movie_meta(), 0);
    r.start();
    assert!(r.tick(WATCHDOG_MS - 1).is_empty() || r.c.phase() == Phase::Loading);
    let fx = r.tick(1);
    assert!(fx.iter().any(|e| matches!(e, Effect::Sniff { .. })));
    assert_eq!(r.hint().as_deref(), Some("RELOADING PLAYER"));
    r.tick(WATCHDOG_MS);
    assert_eq!(r.c.phase(), Phase::Failed);
    let fx = r.key(Key::Center);
    assert_eq!(r.c.phase(), Phase::Loading);
    assert!(fx.iter().any(|e| matches!(e, Effect::Sniff { .. })));
    let fx = r.tick(WATCHDOG_MS);
    assert!(fx.iter().any(|e| matches!(e, Effect::Sniff { .. })));
}

#[test]
fn watchdog_is_quiet_once_something_plays() {
    let mut r = rig(movie_meta(), 0);
    r.native_url();
    r.tick(WATCHDOG_MS + 10);
    assert_eq!(r.c.phase(), Phase::Native);
    assert!(!r.calls.contains(&Command::Stop));
}

#[test]
fn page_player_playback_satisfies_the_watchdog() {
    let mut r = rig(movie_meta(), 0);
    r.native_url();
    r.handle(Input::EngineError("x".to_owned()));
    r.handle(Input::Playback(Playback { time_ms: 5_000, duration_ms: 3_000_000, paused: false, ended: false }));
    r.tick(WATCHDOG_MS + 10);
    assert_eq!(r.c.phase(), Phase::Page);
}

#[test]
fn sniff_failure_reloads_once_then_fails() {
    let mut r = rig(movie_meta(), 0);
    let fx = r.start();
    let fx = r.handle(Input::SniffFailed { seq: Rig::seq(&fx) });
    let seq = Rig::seq(&fx);
    r.handle(Input::SniffFailed { seq });
    assert_eq!(r.c.phase(), Phase::Failed);
}

// ---- start position ----

#[test]
fn start_position_is_applied_once_on_file_loaded() {
    let mut r = rig(movie_meta(), 600);
    let fx = r.start();
    r.sniff_ok(Rig::seq(&fx));
    r.clear();
    r.handle(Input::FileLoaded { duration_ms: 3_000_000 });
    r.handle(Input::FileLoaded { duration_ms: 3_000_000 });
    assert_eq!(r.calls, [Command::SeekTo(600_000)]);
}

#[test]
fn start_position_near_the_end_is_ignored() {
    let mut r = rig(movie_meta(), 2996);
    let fx = r.start();
    r.sniff_ok(Rig::seq(&fx));
    r.clear();
    r.handle(Input::FileLoaded { duration_ms: 3_000_000 });
    assert!(r.calls.is_empty());
}

// ---- native keys ----

#[test]
fn arrows_seek_with_acceleration_while_hidden() {
    let mut r = rig(movie_meta(), 0);
    r.native_url();
    for repeat in [0, 4, 10] {
        r.handle(Input::Key { key: Key::Right, repeat });
    }
    r.handle(Input::Key { key: Key::Left, repeat: 0 });
    assert_eq!(r.calls, [Command::SeekBy(10), Command::SeekBy(30), Command::SeekBy(60), Command::SeekBy(-10)]);
    assert_eq!(r.hint().as_deref(), Some("-10 S"));
    assert!(!r.c.view(&r.lib).overlay_visible);
}

#[test]
fn rewind_and_fast_forward_use_three_steps() {
    let mut r = rig_with(movie_meta(), 0, Settings { seek_step_seconds: 15, ..Settings::default() });
    r.native_url();
    r.key(Key::FastForward);
    assert_eq!(r.hint().as_deref(), Some("+45 S"));
    r.key(Key::Rewind);
    assert_eq!(r.calls, [Command::SeekBy(45), Command::SeekBy(-45)]);
    assert_eq!(r.hint().as_deref(), Some("-45 S"));
}

#[test]
fn center_toggles_play_and_shows_the_overlay() {
    let mut r = rig(movie_meta(), 0);
    r.native_url();
    r.key(Key::Center);
    assert_eq!(r.calls, [Command::SetPaused(true)]);
    assert!(r.c.view(&r.lib).overlay_visible);
    assert!(r.c.view(&r.lib).paused);
}

#[test]
fn overlay_owns_the_arrows_and_center_while_shown() {
    let mut r = rig(movie_meta(), 0);
    r.native_url();
    r.key(Key::Up);
    let fx = r.key(Key::Left);
    assert_eq!(fx, [Effect::PassToOverlay { key: Key::Left, repeat: 0 }]);
    let fx = r.key(Key::Center);
    assert!(matches!(fx.as_slice(), [Effect::PassToOverlay { key: Key::Center, .. }]));
    assert!(r.calls.is_empty());
}

#[test]
fn overlay_hides_after_the_timeout_and_interaction_restarts_it() {
    let mut r = rig(movie_meta(), 0);
    r.native_url();
    r.key(Key::Down);
    r.tick(3_000);
    r.key(Key::Left);
    r.tick(3_000);
    assert!(r.c.view(&r.lib).overlay_visible);
    r.tick(1_000);
    assert!(!r.c.view(&r.lib).overlay_visible);
}

#[test]
fn media_keys_work_with_the_overlay_up() {
    let mut r = rig(movie_meta(), 0);
    r.native_url();
    r.key(Key::Up);
    r.key(Key::Pause);
    r.key(Key::Play);
    r.key(Key::PlayPause);
    assert_eq!(r.calls, [Command::SetPaused(true), Command::SetPaused(false), Command::SetPaused(true)]);
    assert!(r.c.view(&r.lib).overlay_visible);
}

#[test]
fn mouse_shows_the_overlay_and_click_toggles_play() {
    let mut r = rig(movie_meta(), 0);
    r.native_url();
    r.handle(Input::MouseMove);
    assert!(r.c.view(&r.lib).overlay_visible);
    r.handle(Input::VideoClick);
    r.handle(Input::VideoClick);
    assert_eq!(r.calls, [Command::SetPaused(true), Command::SetPaused(false)]);
}

#[test]
fn back_closes_tracks_then_overlay_then_leaves() {
    let mut r = rig(movie_meta(), 0);
    r.native_url();
    r.handle(Input::Tracks {
        audio: vec![audio(&[1], "English · E-AC3 · 5.1", "en"), audio(&[2], "Spanish · AC3 · 5.1", "es")],
        subs: Vec::new(),
        aid: Some(1),
        sid: None,
    });
    r.handle(Input::MouseMove);
    r.handle(Input::Button(Button::Audio));
    assert!(r.c.view(&r.lib).tracks.is_some());
    assert!(r.key(Key::Back).is_empty());
    assert!(r.c.view(&r.lib).tracks.is_none());
    assert!(r.c.view(&r.lib).overlay_visible);
    r.key(Key::Back);
    assert!(!r.c.view(&r.lib).overlay_visible);
    let fx = r.key(Key::Back);
    assert_eq!(fx, [Effect::Exit]);
    assert_eq!(r.calls.last(), Some(&Command::Stop));
}

#[test]
fn menu_short_cycles_subtitles_and_long_reloads() {
    let mut r = rig(movie_meta(), 0);
    r.native_url();
    r.handle(Input::Tracks { audio: Vec::new(), subs: vec![sub(1, None, Some("English"))], aid: None, sid: None });
    r.key(Key::Menu);
    r.handle(Input::KeyUp(Key::Menu));
    assert_eq!(r.calls, [Command::SetSubtitle(Some(1))]);
    assert_eq!(r.hint().as_deref(), Some("SUBTITLES · ENGLISH"));
    r.clear();
    r.key(Key::Menu);
    r.now += 300;
    r.handle(Input::Key { key: Key::Menu, repeat: 1 });
    assert!(r.calls.is_empty());
    r.now += 300;
    let fx = r.handle(Input::Key { key: Key::Menu, repeat: 2 });
    assert!(fx.iter().any(|e| matches!(e, Effect::Sniff { .. })));
    r.handle(Input::KeyUp(Key::Menu));
    assert!(!r.calls.iter().any(|c| matches!(c, Command::SetSubtitle(_))));
}

#[test]
fn ctrl_r_reloads_at_the_current_position() {
    let mut r = rig(movie_meta(), 0);
    r.native_url();
    let fx = r.key(Key::Reload);
    assert_eq!(r.c.start_at(), 100);
    assert!(Rig::sniff_url(&fx).unwrap().ends_with("startAt=100"));
    assert_eq!(r.c.phase(), Phase::Loading);
}

// ---- tracks, volume, quality ----

#[test]
fn subtitles_cycle_off_then_each_track() {
    let mut r = rig(movie_meta(), 0);
    r.native_url();
    r.handle(Input::Button(Button::Subtitles));
    assert_eq!(r.hint().as_deref(), Some("SUBTITLES OFF"));
    assert!(r.calls.is_empty());
    r.handle(Input::Tracks { audio: Vec::new(), subs: vec![sub(3, Some("SDH"), Some("English")), sub(4, None, None)], aid: None, sid: None });
    assert!(r.c.view(&r.lib).subtitles_available);
    r.handle(Input::Button(Button::Subtitles));
    assert_eq!(r.hint().as_deref(), Some("SUBTITLES · SDH"));
    r.handle(Input::Button(Button::Subtitles));
    assert_eq!(r.hint().as_deref(), Some("SUBTITLES · SUBTITLES"));
    r.handle(Input::Button(Button::Subtitles));
    assert_eq!(r.hint().as_deref(), Some("SUBTITLES OFF"));
    assert_eq!(r.calls, [Command::SetSubtitle(Some(3)), Command::SetSubtitle(Some(4)), Command::SetSubtitle(None)]);
}

#[test]
fn audio_pick_selects_and_saves_the_language() {
    let mut r = rig(movie_meta(), 0);
    r.native_url();
    r.handle(Input::Tracks {
        audio: vec![audio(&[1, 2], "English · E-AC3 · 5.1", "en"), audio(&[3], "Spanish · AC3 · 5.1", "es")],
        subs: Vec::new(),
        aid: Some(2),
        sid: None,
    });
    assert!(r.c.view(&r.lib).audio_available);
    r.handle(Input::MouseMove);
    r.handle(Input::Button(Button::Audio));
    assert_eq!(
        r.c.view(&r.lib).tracks,
        Some(TracksPanel {
            heading: "AUDIO".to_owned(),
            labels: vec!["English · E-AC3 · 5.1".to_owned(), "Spanish · AC3 · 5.1".to_owned()],
            selected: 0,
        })
    );
    let fx = r.handle(Input::PickTrack(1));
    assert_eq!(fx, [Effect::SaveAudioLanguage("es".to_owned())]);
    assert_eq!(r.calls, [Command::SetAudio(vec![3])]);
    assert_eq!(r.hint().as_deref(), Some("AUDIO · SPANISH · AC3 · 5.1"));
    assert!(r.c.view(&r.lib).tracks.is_none());
}

#[test]
fn volume_steps_by_five_within_bounds() {
    let mut r = rig(movie_meta(), 0);
    r.native_url();
    for _ in 0..8 {
        r.handle(Input::Button(Button::VolumeUp));
    }
    assert_eq!(r.c.view(&r.lib).volume, 130);
    assert_eq!(r.hint().as_deref(), Some("VOLUME · 130%"));
    r.handle(Input::Button(Button::VolumeDown));
    assert_eq!(r.hint().as_deref(), Some("VOLUME · 125%"));
    for _ in 0..30 {
        r.handle(Input::Button(Button::VolumeDown));
    }
    assert_eq!(r.c.view(&r.lib).volume, 0);
    assert_eq!(r.calls.last(), Some(&Command::SetVolume(0)));
}

#[test]
fn quality_cycle_saves_and_restarts_at_the_position() {
    let key = EpisodeKey::movie(550);
    let mut r = rig(movie_meta(), 0);
    r.lib.entries.extend([entry(key, "2160p DV", "hevc"), entry(key, "1080p", "h264")]);
    r.native_library();
    assert!(r.c.view(&r.lib).quality_available);
    r.handle(Input::Playback(Playback { time_ms: 321_000, duration_ms: 3_000_000, paused: false, ended: false }));
    let fx = r.handle(Input::Button(Button::Quality));
    assert_eq!(fx[0], Effect::SaveQuality("1080p".to_owned()));
    let Effect::PrepareLibrary { seq, entry: e } = &fx[1] else {
        panic!("expected prepare, got {fx:?}");
    };
    assert_eq!(e.quality, "1080p");
    assert_eq!(r.hint().as_deref(), Some("QUALITY · 1080P H264"));
    assert_eq!(r.c.phase(), Phase::Loading);
    let seq = *seq;
    r.handle(Input::LibraryPrepared { seq, subtitle: None });
    assert!(r.calls.contains(&Command::LoadLibrary { entry: entry(key, "1080p", "h264"), subtitle: None, start: 321 }));
    r.clear();
    r.handle(Input::FileLoaded { duration_ms: 3_000_000 });
    assert_eq!(r.calls, [Command::SeekTo(321_000)]);
}

#[test]
fn quality_is_unavailable_with_one_print_or_on_streams() {
    let mut r = rig(movie_meta(), 0);
    r.lib.entries.push(entry(EpisodeKey::movie(550), "1080p", "h264"));
    r.native_library();
    assert!(!r.c.view(&r.lib).quality_available);
    assert!(r.handle(Input::Button(Button::Quality)).is_empty());
    let mut r = rig(movie_meta(), 0);
    r.native_url();
    assert!(!r.c.view(&r.lib).quality_available);
}

// ---- progress ----

fn writes(fx: &[Effect]) -> usize {
    fx.iter().filter(|e| matches!(e, Effect::SaveProgress(_))).count()
}

#[test]
fn progress_is_sampled_every_two_seconds_and_written_every_ten() {
    let mut r = rig(tv_meta(3), 0);
    r.native_url();
    let first = r.tick(PROGRESS_TICK_MS);
    assert_eq!(writes(&first), 1);
    let Some(Effect::SaveProgress(rec)) = first.first() else {
        panic!("expected a record");
    };
    assert_eq!((rec.id, rec.media, rec.watched, rec.duration), (1399, MediaType::Tv, 100, 3000));
    assert_eq!((rec.season, rec.episode, rec.poster.as_deref()), (1, 3, Some("/p.jpg")));
    let mut total = 0;
    for _ in 0..4 {
        total += writes(&r.tick(PROGRESS_TICK_MS));
    }
    assert_eq!(total, 0);
    assert_eq!(writes(&r.tick(PROGRESS_TICK_MS)), 1);
}

#[test]
fn progress_near_the_end_counts_as_ended() {
    let mut r = rig(movie_meta(), 0);
    r.native_url();
    r.tick(PROGRESS_TICK_MS);
    r.handle(Input::Playback(Playback { time_ms: 2_999_500, duration_ms: 3_000_000, paused: false, ended: false }));
    let fx = r.tick(PROGRESS_TICK_MS);
    assert!(matches!(fx.as_slice(), [Effect::SaveProgress(_), Effect::Exit]));
}

// ---- end of playback and next ----

#[test]
fn movie_end_writes_and_exits() {
    let mut r = rig(movie_meta(), 0);
    r.native_url();
    let fx = r.end();
    assert!(matches!(fx.as_slice(), [Effect::SaveProgress(rec), Effect::Exit] if rec.watched == 3000));
}

#[test]
fn tv_end_autoplays_the_next_episode() {
    let mut r = rig(tv_meta(3), 500);
    r.handle(Input::EpisodeCount(8));
    r.native_url();
    let fx = r.end();
    assert_eq!(r.c.meta().episode, 4);
    assert_eq!(r.c.start_at(), 0);
    assert_eq!(r.hint().as_deref(), Some("NEXT · S1 E4"));
    assert!(Rig::sniff_url(&fx).unwrap().contains("/tv/1399/1/4?"));
}

#[test]
fn tv_end_without_autoplay_offers_next_in_the_overlay() {
    let mut r = rig_with(tv_meta(3), 0, Settings { autoplay_next: false, ..Settings::default() });
    r.native_url();
    r.handle(Input::EpisodeCount(8));
    r.end();
    let v = r.c.view(&r.lib);
    assert!(v.overlay_visible && v.next_available);
    assert_eq!(r.c.meta().episode, 3);
    let fx = r.handle(Input::Button(Button::Next));
    assert_eq!(r.c.meta().episode, 4);
    assert!(fx.iter().any(|e| matches!(e, Effect::Sniff { .. })));
}

#[test]
fn tv_end_in_the_page_player_shows_a_hint() {
    let mut r = rig_with(tv_meta(3), 0, Settings { autoplay_next: false, ..Settings::default() });
    r.native_url();
    r.handle(Input::EngineError("x".to_owned()));
    r.handle(Input::EpisodeCount(8));
    r.end();
    assert_eq!(r.hint().as_deref(), Some("EPISODE FINISHED"));
    assert_eq!(r.c.phase(), Phase::Page);
}

#[test]
fn tv_end_of_the_last_episode_exits() {
    let mut r = rig(tv_meta(8), 0);
    r.native_url();
    r.handle(Input::EpisodeCount(8));
    assert!(!r.c.view(&r.lib).next_available);
    assert!(r.end().contains(&Effect::Exit));
}

#[test]
fn tv_end_with_an_unknown_count_waits_for_it() {
    let mut r = rig(tv_meta(3), 0);
    r.native_url();
    let fx = r.end();
    assert!(!fx.contains(&Effect::Exit));
    assert_eq!(r.c.meta().episode, 3);
    r.handle(Input::EpisodeCount(4));
    assert_eq!(r.c.meta().episode, 4);
    let mut r = rig(tv_meta(3), 0);
    r.native_url();
    r.end();
    assert_eq!(r.handle(Input::EpisodeCount(0)), [Effect::Exit]);
}

#[test]
fn next_needs_a_later_episode_in_the_season() {
    let mut r = rig(tv_meta(8), 0);
    r.handle(Input::EpisodeCount(8));
    r.native_url();
    assert!(r.handle(Input::Button(Button::Next)).is_empty());
    assert!(r.key(Key::Next).is_empty());
    assert_eq!(r.c.meta().episode, 8);
    let mut r = rig(tv_meta(7), 0);
    r.handle(Input::EpisodeCount(8));
    r.native_url();
    assert!(r.c.view(&r.lib).next_available);
    r.key(Key::Next);
    assert_eq!(r.c.meta().episode, 8);
}

#[test]
fn next_episode_retries_the_library() {
    let mut r = rig(tv_meta(1), 0);
    r.handle(Input::EpisodeCount(2));
    r.lib.entries.extend([
        entry(EpisodeKey::episode(1399, 1, 1), "1080p", "h264"),
        entry(EpisodeKey::episode(1399, 1, 2), "1080p", "h264"),
    ]);
    r.native_library();
    let fx = r.handle(Input::EngineError("x".to_owned()));
    r.sniff_ok(Rig::seq(&fx));
    r.handle(Input::FirstFrame);
    assert_eq!(r.c.phase(), Phase::Native);
    let fx = r.key(Key::Next);
    assert_eq!(r.c.meta().episode, 2);
    assert!(fx.iter().any(|e| matches!(e, Effect::PrepareLibrary { entry, .. } if entry.key.episode == 2)));
}

// ---- page player ----

fn page_rig() -> Rig {
    let mut r = rig(movie_meta(), 0);
    r.native_url();
    r.handle(Input::EngineError("x".to_owned()));
    r.clear();
    r
}

#[test]
fn page_ready_applies_start_and_speed() {
    let mut r = rig_with(movie_meta(), 0, Settings { speed_percent: 150, ..Settings::default() });
    r.native_url();
    r.handle(Input::EngineError("x".to_owned()));
    r.clear();
    r.handle(Input::PageReady);
    assert_eq!(r.calls, [Command::Page(PageAction::ApplyStart(100)), Command::Page(PageAction::ApplySpeed(150))]);
}

#[test]
fn page_keys_map_to_page_actions() {
    let mut r = page_rig();
    r.key(Key::Center);
    r.handle(Input::KeyUp(Key::Center));
    r.key(Key::Pause);
    r.key(Key::Left);
    r.key(Key::FastForward);
    assert_eq!(
        r.calls,
        [
            Command::Page(PageAction::Space),
            Command::Page(PageAction::Pause),
            Command::Page(PageAction::ArrowLeft),
            Command::Page(PageAction::Seek(30))
        ]
    );
}

#[test]
fn page_long_center_enters_navigation_and_back_leaves_it() {
    let mut r = page_rig();
    r.key(Key::Center);
    r.now += LONG_PRESS_MS;
    r.handle(Input::Key { key: Key::Center, repeat: 1 });
    r.handle(Input::KeyUp(Key::Center));
    assert!(r.c.view(&r.lib).nav_mode);
    assert_eq!(r.hint().as_deref(), Some("NAVIGATE · CENTER SELECT · BACK EXIT"));
    r.key(Key::Down);
    r.key(Key::Center);
    r.handle(Input::KeyUp(Key::Center));
    assert!(r.key(Key::Back).is_empty());
    r.handle(Input::PagePanelClosed(true));
    assert!(r.c.view(&r.lib).nav_mode);
    r.key(Key::Back);
    r.handle(Input::PagePanelClosed(false));
    assert!(!r.c.view(&r.lib).nav_mode);
    assert_eq!(
        r.calls,
        [
            Command::Page(PageAction::EnterNav),
            Command::Page(PageAction::Nav(Direction::Down)),
            Command::Page(PageAction::Activate),
            Command::Page(PageAction::ClosePanel),
            Command::Page(PageAction::ClosePanel),
            Command::Page(PageAction::ExitNav)
        ]
    );
    assert_eq!(r.key(Key::Back), [Effect::Exit]);
}

#[test]
fn page_menu_opens_settings() {
    let mut r = page_rig();
    r.key(Key::Menu);
    r.handle(Input::KeyUp(Key::Menu));
    assert_eq!(r.calls, [Command::Page(PageAction::EnterNav), Command::Page(PageAction::OpenSettings)]);
}

#[test]
fn page_load_failure_reloads_then_fails() {
    let mut r = page_rig();
    r.handle(Input::PageFailed);
    assert!(matches!(r.calls.last(), Some(Command::PageLoad(_))));
    r.handle(Input::PageFailed);
    assert_eq!(r.c.phase(), Phase::Failed);
    assert_eq!(r.calls.last(), Some(&Command::PageClose));
}

#[test]
fn hints_expire() {
    let mut r = rig(movie_meta(), 0);
    r.native_url();
    r.key(Key::Right);
    r.tick(HINT_MS - 1);
    assert!(r.hint().is_some());
    r.tick(1);
    assert!(r.hint().is_none());
}

#[test]
fn overlay_texts() {
    let mut r = rig(tv_meta(3), 0);
    r.native_url();
    let v = r.c.view(&r.lib);
    assert_eq!((v.eyebrow.as_str(), v.position.as_str(), v.duration.as_str()), ("S1 · E3", "01:40", "50:00"));
    let m = rig(movie_meta(), 0);
    assert_eq!(m.c.view(&m.lib).eyebrow, "MOVIE");
    assert_eq!(m.c.view(&m.lib).duration, "--:--");
}

#[test]
fn an_exited_player_ignores_input() {
    let mut r = rig(movie_meta(), 0);
    r.native_url();
    assert_eq!(r.key(Key::Back), [Effect::Exit]);
    r.clear();
    assert!(r.key(Key::Center).is_empty());
    assert!(r.tick(WATCHDOG_MS).is_empty());
    assert!(r.calls.is_empty());
}

// ---- the overlay ----

fn view_state() -> flox_app::player::controller::ViewState {
    let r = rig(tv_meta(3), 0);
    let mut v = r.c.view(&r.lib);
    v.phase = Phase::Native;
    v.overlay_visible = true;
    v
}

#[test]
fn repeats_count_while_the_same_key_is_held() {
    let mut r = RepeatCounter::default();
    assert_eq!(r.press("a", false), 0);
    assert_eq!(r.press("a", true), 1);
    assert_eq!(r.press("a", true), 2);
    assert_eq!(r.press("b", true), 0, "another key starts over");
    r.release();
    assert_eq!(r.press("b", true), 0);
    assert_eq!(r.press("b", false), 0);
}

#[test]
fn extras_show_only_when_available() {
    let mut v = view_state();
    assert_eq!(visible_buttons(&v), vec![Button::Rewind, Button::PlayPause, Button::Forward, Button::VolumeDown, Button::VolumeUp]);
    v.subtitles_available = true;
    v.next_available = true;
    assert_eq!(visible_buttons(&v)[5..], [Button::Subtitles, Button::Next]);
    assert_eq!(button_slot(Button::Next), Some(8));
    assert_eq!(button_slot(Button::Back), None);
}

#[test]
fn overlay_navigation() {
    let mut v = view_state();
    v.audio_available = true;
    let mut nav = OverlayNav::default();
    assert_eq!(nav.slint_focus(), (BUTTONS, 1));
    assert_eq!(nav.key(Key::Right, 0, &v), None);
    assert_eq!(nav.target(), Target::Button(Button::Forward));
    for _ in 0..10 {
        nav.key(Key::Right, 0, &v);
    }
    assert_eq!(nav.target(), Target::Button(Button::Audio), "clamped at the end");
    assert_eq!(nav.key(Key::Center, 0, &v), Some(Input::Button(Button::Audio)));
    assert_eq!(nav.key(Key::Center, 3, &v), None, "held CENTER does not repeat");
    nav.key(Key::Up, 0, &v);
    assert_eq!(nav.target(), Target::Seek);
    assert_eq!(nav.key(Key::Left, 5, &v), Some(Input::ScrubBy { forward: false, repeat: 5 }));
    assert_eq!(nav.key(Key::Center, 0, &v), Some(Input::Button(Button::PlayPause)));
    nav.key(Key::Up, 0, &v);
    assert_eq!(nav.target(), Target::Back);
    assert_eq!(nav.slint_focus(), (BACK, 0));
    assert_eq!(nav.key(Key::Center, 0, &v), Some(Input::Button(Button::Back)));
    nav.key(Key::Down, 0, &v);
    nav.key(Key::Down, 0, &v);
    assert_eq!(nav.target(), Target::Button(Button::PlayPause));
}

#[test]
fn hidden_buttons_lose_the_focus() {
    let mut v = view_state();
    v.next_available = true;
    let mut nav = OverlayNav::default();
    nav.set(Target::Button(Button::Next));
    v.next_available = false;
    nav.normalize(&v);
    assert_eq!(nav.target(), Target::Button(Button::PlayPause));
}

#[test]
fn the_tracks_panel_traps_the_focus() {
    let mut v = view_state();
    v.audio_available = true;
    v.tracks = Some(TracksPanel {
        heading: "AUDIO".to_owned(),
        labels: vec!["English".to_owned(), "Japanese".to_owned(), "French".to_owned()],
        selected: 1,
    });
    let mut nav = OverlayNav::default();
    assert_eq!(nav.key(Key::Down, 0, &v), None);
    assert_eq!(nav.target(), Target::Track(2));
    nav.key(Key::Down, 0, &v);
    assert_eq!(nav.target(), Target::Track(2));
    nav.key(Key::Left, 0, &v);
    assert_eq!(nav.target(), Target::Track(2));
    nav.key(Key::Up, 0, &v);
    assert_eq!(nav.key(Key::Center, 0, &v), Some(Input::PickTrack(1)));
    assert_eq!(nav.slint_focus(), (TRACKS, 1));
    v.tracks = None;
    nav.normalize(&v);
    assert_eq!(nav.target(), Target::Button(Button::Audio));
}

#[test]
fn pointer_targets() {
    assert_eq!(pointer_target(ZoneId(BACK), 0), Some(Target::Back));
    assert_eq!(pointer_target(ZoneId(SEEK), 0), Some(Target::Seek));
    assert_eq!(pointer_target(ZoneId(BUTTONS), 6), Some(Target::Button(Button::Subtitles)));
    assert_eq!(pointer_target(ZoneId(BUTTONS), 9), None);
    assert_eq!(pointer_target(ZoneId(TRACKS), 2), Some(Target::Track(2)));
    assert_eq!(pointer_target(ZoneId(RESUME), 0), None);
}

#[test]
fn stamps_and_hints() {
    assert_eq!(stamp_text(Phase::Loading), "LOADING");
    assert_eq!(stamp_text(Phase::Failed), "PLAYBACK FAILED");
    assert_eq!(stamp_text(Phase::Native), "");
    assert_eq!(stamp_text(Phase::Asking), "");
    let mut v = view_state();
    v.hint = Some("+10 S".to_owned());
    assert_eq!(hint_text(&v, true), "+10 S");
    v.phase = Phase::Failed;
    assert_eq!(hint_text(&v, true), "LIBMPV NOT FOUND");
    assert_eq!(hint_text(&v, false), "+10 S");
}

#[test]
fn media_keys_keep_play_and_pause_apart() {
    assert_eq!(media_key(MediaKey::Play), Some(Key::Play));
    assert_eq!(media_key(MediaKey::Pause), Some(Key::Pause));
    assert_eq!(media_key(MediaKey::PlayPause), Some(Key::PlayPause));
    assert_eq!(media_key(MediaKey::Next), Some(Key::Next));
    assert_eq!(media_key(MediaKey::Previous), None);
    assert_eq!(media_key(MediaKey::Stop), None);
}

#[test]
fn events_become_playback_inputs() {
    let mut m = EventMapper::new();
    assert!(m.map(MpvSignal::StartFile).is_empty());
    let p = |time_ms, duration_ms, paused, ended| vec![Input::Playback(Playback { time_ms, duration_ms, paused, ended })];
    assert_eq!(m.map(MpvSignal::Duration(600_000)), p(0, 600_000, false, false));
    assert_eq!(m.map(MpvSignal::FileLoaded), vec![Input::FileLoaded { duration_ms: 600_000 }]);
    assert_eq!(m.map(MpvSignal::PlaybackRestart), vec![Input::FirstFrame]);
    assert!(m.map(MpvSignal::PlaybackRestart).is_empty(), "after a seek");
    assert_eq!(m.map(MpvSignal::Time(12_500)), p(12_500, 600_000, false, false));
    assert!(m.map(MpvSignal::Time(12_500)).is_empty(), "unchanged");
    assert_eq!(m.map(MpvSignal::Pause(true)), p(12_500, 600_000, true, false));
    assert_eq!(m.map(MpvSignal::Eof(true)), p(12_500, 600_000, true, true));
    assert_eq!(m.map(MpvSignal::Time(0)), p(0, 600_000, true, true));
    // a new file resets everything, including the first-frame latch
    assert!(m.map(MpvSignal::StartFile).is_empty());
    assert_eq!(m.playback(), Playback::default());
    assert_eq!(m.map(MpvSignal::PlaybackRestart), vec![Input::FirstFrame]);
}

#[test]
fn load_errors_and_stops() {
    let mut m = EventMapper::new();
    assert_eq!(
        m.map(MpvSignal::EndFile { reason: "error".to_owned(), error: -13 }),
        vec![Input::EngineError("mpv load failed (-13)".to_owned())]
    );
    for reason in ["stop", "eof", "quit", "redirect"] {
        assert!(m.map(MpvSignal::EndFile { reason: reason.to_owned(), error: 0 }).is_empty());
    }
    assert!(m.map(MpvSignal::Other).is_empty());
}

#[test]
fn track_lists_pass_through_with_the_selection() {
    let mut m = EventMapper::new();
    let got = m.map(MpvSignal::TrackList {
        audio: vec![audio(&[1], "English · E-AC3 · 5.1", "en"), audio(&[2], "Japanese · AAC · 2.0", "ja")],
        subs: vec![SubTrack { id: 1, title: None, language_name: Some("English".to_owned()) }],
        aid: Some(2),
        sid: None,
    });
    let [Input::Tracks { audio: a, subs, aid, sid }] = got.as_slice() else {
        panic!("{got:?}");
    };
    assert_eq!(a.len(), 2);
    assert_eq!(subs.len(), 1);
    assert_eq!((*aid, *sid), (Some(2), None));
}

#[test]
fn cache_state_feeds_the_buffered_band() {
    let mut m = EventMapper::new();
    assert!(m.map(MpvSignal::CacheEnd(95_250)).is_empty());
    assert_eq!(m.buffered(), 95_250);
    m.map(MpvSignal::CacheEnd(0));
    assert_eq!(m.buffered(), 0);
    assert!(m.map(MpvSignal::Other).is_empty());
}

#[test]
fn ui_language_is_two_letters() {
    use_ui_language(&["de_DE.UTF-8"], "de");
    use_ui_language(&["C", "POSIX", "fr_FR"], "fr");
    use_ui_language(&["ENG", "PT_br"], "pt");
    use_ui_language(&[], "en");
    use_ui_language(&["C.UTF-8"], "en");
}

fn use_ui_language(values: &[&str], expected: &str) {
    let values: Vec<String> = values.iter().map(|v| v.to_string()).collect();
    let lang = flox_app::player::view::ui_language(&values);
    assert_eq!(lang, expected);
    assert_eq!(lang.len(), 2);
    assert!(lang.chars().all(|c| c.is_ascii_lowercase()));
}

#[test]
fn only_interrupted_reads_are_cancelled() {
    assert_eq!(read_error_action(true), ReadErrorAction::Cancel);
    assert_eq!(read_error_action(false), ReadErrorAction::Keep);
}
