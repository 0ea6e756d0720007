use flox_app::focus::{Layout, Zone, ZoneId};
use flox_app::model::{AuthState, EpisodeKey, MediaType, ProgressRecord, TelegramStatus};
use flox_app::vm::details;
use flox_app::vm::ingest::{
    bar, hub_view, HubPhase, cell_zone, dialog_zone, gb, hub_empty, hub_reading, hub_zones, http_url, host, middle_elide,
    next_tag, page_jobs, parse_episode, queue_label, queued_note, tag_label, HubFile, HubPicker, JobSource, LocalFiles, PasteLinks, PickedFile, Variant,
    Selection, Tag, Target, zone_cell, COL_REMOVE, FILES_ROWS, HUB_FOOTER, PASTE_ROWS,
};
use flox_app::vm::library::{self, Load, EMPTY, NOT_CONNECTED, READING};
use flox_app::vm::login::{self, same_step, step, submission, view, Button, Effect, Flow, Mode, Step, Submit, SCAN};
use flox_app::vm::queue::{self, actions, refocus, row_zone, zone_row, Action, JobState, FOOTER};
use flox_app::vm::search::{self, back, Back, Debounce, Plan, Results, DEBOUNCE_MS};
use flox_app::vm::settings::{
    self, choice_zones, confirm_text, confirm_zones, credential, mask, opt, row_ids, text_zones, tool_value,
    unquote, Confirm, RowId, BUTTONS, CANCEL, FIELD, OK, OPTIONS,
};
use flox_app::focus::Focus;
use flox_app::router::Route;

fn tv(selected: &[u32]) -> Target {
    Target {
        id: 7,
        media: MediaType::Tv,
        title: "Show".to_owned(),
        season: 2,
        episodes: (1..=5).collect(),
        selected: selected.to_vec(),
    }
}

fn movie() -> Target {
    Target { id: 9, media: MediaType::Movie, title: "Film".to_owned(), season: 0, episodes: Vec::new(), selected: Vec::new() }
}

// ---- ingest ----

#[test]
fn selection_toggles_all_and_none() {
    let mut s = Selection::default();
    assert!(s.toggle(3));
    assert!(s.toggle(1));
    assert!(!s.toggle(3));
    assert_eq!(s.sorted(), vec![1]);
    s.select_all(&vec![4, 2, 1]);
    assert_eq!(s.sorted(), vec![1, 2, 4]);
    assert!(s.contains(4));
    s.clear();
    assert!(s.is_empty());
}

#[test]
fn selection_counts_each_episode_once() {
    let mut s = Selection::default();
    s.select_all(&vec![5, 5, 3, 9, 3]);
    assert_eq!(s.len(), 3);
    assert_eq!(s.sorted(), vec![3, 5, 9]);
    assert!(!s.toggle(5));
    assert_eq!(s.len(), 2);
}

#[test]
fn bar_rules() {
    let b = bar(MediaType::Tv, 0, 10);
    assert!(!b.vidlink_enabled);
    assert_eq!(b.hub_label, "SEASON FROM 4KHDHUB");
    assert_eq!(b.selected, "0 SELECTED");
    let b = bar(MediaType::Tv, 2, 10);
    assert!(b.vidlink_enabled);
    assert_eq!(b.hub_label, "4KHDHUB");
    assert!(!bar(MediaType::Tv, 0, 0).hub_enabled);
    let b = bar(MediaType::Movie, 0, 0);
    assert!(b.vidlink_enabled && b.hub_enabled);
    assert_eq!(b.hub_label, "4KHDHUB");
    assert_eq!(b.selected, "");
}

#[test]
fn vidlink_queues_selected_pages() {
    let jobs = page_jobs(&tv(&[1, 4]));
    assert_eq!(jobs.len(), 2);
    assert_eq!(jobs[1].key, EpisodeKey::episode(7, 2, 4));
    assert_eq!(jobs[1].source, JobSource::Page);
    assert_eq!(jobs[0].label(), "Show · S02 E01");
    let jobs = page_jobs(&movie());
    assert_eq!(jobs.len(), 1);
    assert_eq!(jobs[0].key, EpisodeKey::movie(9));
}

#[test]
fn target_prefill_and_wanted() {
    assert_eq!(tv(&[3, 5]).start_episode(), 3);
    assert_eq!(tv(&[]).start_episode(), 1);
    assert_eq!(tv(&[]).wanted(), vec![1, 2, 3, 4, 5]);
    assert_eq!(tv(&[2]).wanted(), vec![2]);
    assert_eq!(tv(&[]).subtitle(), "Show · Season 2");
}

#[test]
fn cell_zones_round_trip() {
    let z = cell_zone(PASTE_ROWS, 3, COL_REMOVE);
    assert_eq!(z, ZoneId(2014));
    assert_eq!(zone_cell(PASTE_ROWS, z), Some((3, COL_REMOVE)));
    assert_eq!(zone_cell(FILES_ROWS, z), None);
    assert!(dialog_zone(z));
    assert!(dialog_zone(ZoneId(HUB_FOOTER)));
    assert!(!dialog_zone(ZoneId(20)));
}

#[test]
fn cell_zones_cap_the_rows() {
    assert_eq!(cell_zone(PASTE_ROWS, 500, 1), cell_zone(PASTE_ROWS, 200, 1));
    assert_eq!(zone_cell(PASTE_ROWS, ZoneId(PASTE_ROWS + 800)), None);
    assert_eq!(zone_cell(PASTE_ROWS, ZoneId(PASTE_ROWS - 1)), None);
    assert_eq!(zone_cell(i32::MAX, ZoneId(i32::MIN)), None);
}

#[test]
fn paste_links_prefill_add_remove() {
    let mut p = PasteLinks::new(tv(&[4, 6]).start_episode());
    assert_eq!(p.rows[0].episode, "4");
    assert!(!p.can_remove());
    assert!(!p.remove(0));
    assert_eq!(p.add_field().map(|r| r.episode), Some("5".to_owned()));
    p.set_episode(1, "x");
    assert_eq!(p.add_field().map(|r| r.episode), Some("1".to_owned()));
    assert!(p.remove(1));
    assert_eq!(p.rows.len(), 2);
}

#[test]
fn paste_links_queue_only_http_urls() {
    let t = tv(&[]);
    let mut p = PasteLinks::new(1);
    p.set_url(0, " https://cdn.test/e1.mkv ");
    p.add_field();
    p.set_url(1, "ftp://cdn.test/e2.mkv");
    p.add_field();
    p.set_url(2, "http://cdn.test/e3.mkv");
    p.add_field();
    p.set_url(3, "https://cdn.test/e4.mkv");
    p.set_episode(3, "");
    p.add_field();
    p.set_url(4, "not a url");
    let jobs = p.jobs(&t);
    assert_eq!(jobs.len(), 2);
    assert_eq!(jobs[0].source, JobSource::Link("https://cdn.test/e1.mkv".to_owned()));
    assert_eq!(jobs[1].key, EpisodeKey::episode(7, 2, 3));
    assert_eq!(queue_label(jobs.len()), "QUEUE 2");
    let zones = p.zones(MediaType::Tv);
    assert_eq!(zones.len(), 5 * 3 + 1);
    assert_eq!(PasteLinks::new(1).zones(MediaType::Movie).len(), 3);

    let mut m = PasteLinks::new(1);
    m.set_url(0, "https://cdn.test/film.mkv");
    m.set_episode(0, "");
    let jobs = m.jobs(&movie());
    assert_eq!(jobs.len(), 1);
    assert_eq!(jobs[0].key, EpisodeKey::movie(9));
}

#[test]
fn paste_links_stop_at_the_row_limit() {
    let mut p = PasteLinks::new(1);
    for _ in 1..200 {
        assert!(p.add_field().is_some());
    }
    assert_eq!(p.rows.len(), 200);
    assert_eq!(p.add_field(), None);
    assert_eq!(p.rows.len(), 200);
}

#[test]
fn middle_elision() {
    assert_eq!(middle_elide("short.mkv", 20), "short.mkv");
    assert_eq!(middle_elide("abcdefghijkl", 7), "abc…jkl");
    assert_eq!(middle_elide("abcdefghijkl", 4), "abcdefghijkl");
    assert_eq!(tag_label(Tag::Dv), "DV");
    assert_eq!(next_tag(Tag::Sdr), Tag::Hdr);
    assert_eq!(next_tag(Tag::Dv), Tag::Sdr);
}

#[test]
fn hub_status_lines() {
    assert_eq!(hub_reading("https://4khdhub.one/severance-series-123/"), "READING SEVERANCE-SERIES-123…");
    assert_eq!(hub_empty(MediaType::Tv, 2), "NO FILES FOR SEASON 2 ON THAT PAGE. PASTE ANOTHER URL:");
    assert_eq!(http_url("https://4khdhub.one/x"), Some("https://4khdhub.one/x".into()));
    assert_eq!(http_url("4khdhub.one/x"), None);
    assert_eq!(parse_episode(" 12 "), Some(12));
    assert_eq!(parse_episode("0"), None);
    let zones = hub_zones(true, 0);
    assert_eq!(zones[0].len(), 1);
    assert_eq!(zones[2].len(), 0);
}

#[test]
fn hosts_and_sizes() {
    assert_eq!(host("https://4khdhub.one/show-series-1/"), "4khdhub.one");
    assert_eq!(host("not a url"), "");
    assert_eq!(gb(2 << 30), "2.0 GB");
    assert_eq!(gb(40 << 30), "40.0 GB");
    assert_eq!(gb(0), "0.0 GB");
    assert_eq!(gb(3 << 29), "1.5 GB");
    assert_eq!(hub_empty(MediaType::Movie, 0), "NO FILES FOR THIS TITLE ON THAT PAGE. PASTE ANOTHER URL:");
    assert_eq!(hub_reading("https://4khdhub.one/"), "READING HTTPS://4KHDHUB.ONE/…");
}

#[test]
fn episode_numbers_parse_like_integers() {
    assert_eq!(parse_episode("+7"), Some(7));
    assert_eq!(parse_episode("4294967295"), Some(4294967295));
    assert_eq!(parse_episode("4294967296"), None);
    assert_eq!(parse_episode("-1"), None);
    assert_eq!(parse_episode("1 2"), None);
    assert_eq!(parse_episode(""), None);
    assert_eq!(queued_note(3), "3 QUEUED");
}

// ---- details and home ----

#[test]
fn zones_before_and_after_load() {
    let loading = details::zones(false, 0, 0);
    assert!(loading.iter().all(|z| z.is_empty()));
    let loaded = details::zones(true, 3, 10);
    assert_eq!(loaded[0].len(), 1);
    assert_eq!(loaded[2].len(), 10);
}

fn progress(season: u32, episode: u32, watched: u32) -> ProgressRecord {
    ProgressRecord {
        id: 1,
        media: MediaType::Tv,
        title: "T".to_owned(),
        poster: None,
        watched,
        duration: 3000,
        season,
        episode,
        updated: 0,
    }
}

#[test]
fn play_and_resume_labels() {
    assert_eq!(details::play_label(MediaType::Movie, None).text, "PLAY");
    let none = progress(1, 1, 0);
    let fresh = details::play_label(MediaType::Tv, Some(&none));
    assert_eq!(fresh.text, "PLAY");
    assert!(!fresh.resume);
    let p = progress(2, 3, 600);
    assert_eq!(details::play_label(MediaType::Movie, Some(&p)).text, "RESUME");
    let tv = details::play_label(MediaType::Tv, Some(&p));
    assert_eq!(tv.text, "RESUME S2 E3");
    assert!(tv.resume);
    assert_eq!(details::season_label(12), "S12");
}

#[test]
fn home_zones_top_to_bottom() {
    let z = flox_app::vm::home::zones(0, 0, 3, 2);
    assert_eq!(z.len(), 5);
    assert_eq!(z[0].layout, Layout::TopBar);
    assert_eq!(z[0].len(), 4);
    assert!(z[1].is_empty() && z[2].is_empty());
    assert_eq!(z[3].len(), 3);
    assert_eq!(flox_app::vm::home::top_bar_routes().len(), 4);
}

// ---- library ----

#[test]
fn stamps_and_status() {
    assert_eq!(library::stamp(&Load::Reading, 0), READING);
    assert_eq!(library::stamp(&Load::Reading, 3), "");
    assert_eq!(library::status(&Load::Reading, 3), READING);
    assert_eq!(library::stamp(&Load::Loaded, 0), EMPTY);
    assert_eq!(library::stamp(&Load::Loaded, 2), "");
    assert_eq!(library::stamp(&Load::NotConnected, 0), NOT_CONNECTED);
    assert_eq!(library::stamp(&Load::Failed("timed out".into()), 0), "TIMED OUT");
    assert_eq!(library::status(&Load::Failed("timed out".into()), 1), "TIMED OUT");
    assert_eq!(library::status(&Load::Loaded, 1), "");
    assert_eq!(library::zones(4)[1].len(), 4);
    assert_eq!(library::confirm_zones()[0].len(), 2);
}

#[test]
fn key_labels() {
    assert_eq!(library::key_label(EpisodeKey::episode(1, 1, 5)), "S01 E05");
    assert_eq!(library::key_label(EpisodeKey::episode(1, 12, 105)), "S12 E105");
    assert_eq!(library::key_label(EpisodeKey::movie(1)), "MOVIE");
}

// ---- login ----

fn auth(state: AuthState) -> TelegramStatus {
    TelegramStatus::Auth(state)
}

fn qr(link: &str) -> AuthState {
    AuthState::WaitQr { link: link.into() }
}

#[test]
fn states_map_to_steps() {
    let q = Mode::Qr;
    assert_eq!(step(&TelegramStatus::NotConfigured, q), Step::Setup);
    assert_eq!(step(&TelegramStatus::Unavailable, q), Step::Unavailable);
    assert_eq!(step(&auth(AuthState::Idle), q), Step::Connecting);
    assert_eq!(step(&auth(AuthState::Connecting), q), Step::Connecting);
    assert_eq!(step(&auth(AuthState::LoggingOut), q), Step::Connecting);
    assert_eq!(step(&auth(AuthState::WaitPhone), q), Step::Connecting);
    assert_eq!(step(&auth(qr("tg://login?token=a")), q), Step::Qr { link: "tg://login?token=a".into() });
    assert_eq!(step(&auth(AuthState::WaitCode), q), Step::Code);
    assert_eq!(step(&auth(AuthState::WaitPassword { hint: "cat".into() }), q), Step::Password { hint: "cat".into() });
    assert_eq!(step(&auth(AuthState::Ready { user: "u".into() }), q), Step::Done);
    assert_eq!(
        step(&auth(AuthState::Failed("PHONE_CODE_INVALID bad".into())), q),
        Step::Failed { message: "PHONE_CODE_INVALID BAD".into() }
    );
}

#[test]
fn phone_mode_shows_the_field_and_waits_out_a_pending_qr() {
    let p = Mode::Phone;
    assert_eq!(step(&auth(AuthState::WaitPhone), p), Step::Phone);
    assert_eq!(step(&auth(qr("x")), p), Step::Connecting);
    assert_eq!(step(&auth(AuthState::WaitCode), p), Step::Code);
}

#[test]
fn qr_mode_requests_a_link_once_per_state() {
    let mut f = Flow::new();
    assert_eq!(f.on_state(&AuthState::Connecting), None);
    assert_eq!(f.on_state(&AuthState::WaitPhone), Some(Effect::RequestQr));
    assert_eq!(f.on_state(&AuthState::WaitPhone), None, "already asked");
    assert_eq!(f.on_state(&qr("a")), None);
    assert_eq!(f.on_state(&qr("b")), None, "a refreshed link needs nothing");
    assert_eq!(f.on_state(&AuthState::Connecting), None);
    assert_eq!(f.on_state(&AuthState::WaitPhone), Some(Effect::RequestQr));
}

#[test]
fn switching_to_the_phone_restarts_a_pending_qr() {
    let mut f = Flow::new();
    f.on_state(&AuthState::WaitPhone);
    f.on_state(&qr("a"));
    assert_eq!(f.switch(Mode::Phone, &qr("a")), Some(Effect::Restart));
    assert_eq!(f.mode(), Mode::Phone);
    assert_eq!(f.on_state(&qr("b")), None, "one restart is enough");
    assert_eq!(f.on_state(&AuthState::Connecting), None);
    assert_eq!(f.on_state(&AuthState::WaitPhone), None, "no QR in phone mode");
    assert_eq!(f.switch(Mode::Phone, &AuthState::WaitPhone), None);
}

#[test]
fn switching_to_the_phone_before_the_qr_needs_nothing() {
    let mut f = Flow::new();
    assert_eq!(f.switch(Mode::Phone, &AuthState::WaitPhone), None);
    assert_eq!(f.on_state(&AuthState::WaitPhone), None);
}

#[test]
fn switching_back_to_qr_requests_a_link() {
    let mut f = Flow::new();
    f.switch(Mode::Phone, &AuthState::WaitPhone);
    assert_eq!(f.switch(Mode::Qr, &AuthState::WaitPhone), Some(Effect::RequestQr));
    let mut f = Flow::new();
    f.switch(Mode::Phone, &AuthState::WaitPhone);
    f.on_state(&AuthState::WaitCode);
    assert_eq!(f.switch(Mode::Qr, &AuthState::WaitCode), Some(Effect::RequestQr));
    assert_eq!(f.on_state(&AuthState::WaitCode), None);
}

#[test]
fn views_carry_the_android_and_mac_text() {
    let v = view(&Step::Qr { link: "x".into() });
    assert_eq!(v.status, SCAN);
    assert_eq!(v.buttons, [Button::UsePhone]);
    assert!(!Button::UsePhone.filled());
    assert_eq!(v.field, None);

    let v = view(&Step::Phone);
    assert_eq!(v.status, "PHONE NUMBER WITH COUNTRY CODE");
    assert_eq!(v.field, Some("+1 555 123 4567"));
    assert_eq!(v.buttons, [Button::SendCode, Button::UseQr]);

    let v = view(&Step::Password { hint: "my cat".into() });
    assert_eq!(v.status, "TWO-STEP PASSWORD · HINT: MY CAT");
    assert!(v.secret);
    let v = view(&Step::Password { hint: " ".into() });
    assert_eq!(v.status, "TWO-STEP PASSWORD");

    let v = view(&Step::Failed { message: "TIMEOUT".into() });
    assert_eq!((v.status.as_str(), v.buttons[0]), ("TIMEOUT", Button::TryAgain));
    assert_eq!(Button::TryAgain.label(), "TRY AGAIN");

    let v = view(&Step::Setup);
    assert_eq!(v.heading, "Add your Telegram API id and hash in Settings");
    assert!(v.body.contains("my.telegram.org/apps"));
    assert_eq!(v.buttons, [Button::OpenSettings]);
    assert_eq!(Button::OpenSettings.label(), "OPEN SETTINGS");

    assert_eq!(view(&Step::Connecting).status, "CONNECTING");
}

#[test]
fn zones_follow_the_view() {
    let z = login::zones(&view(&Step::Phone));
    assert_eq!(z[0].len(), 1);
    assert_eq!(z[1].len(), 2);
    let z = login::zones(&view(&Step::Qr { link: "x".into() }));
    assert!(z[0].is_empty());
    assert_eq!(z[1].len(), 1);
    assert!(login::zones(&view(&Step::Connecting)).iter().all(Zone::is_empty));
}

#[test]
fn submissions() {
    assert_eq!(submission(&Step::Phone, " +1 555 "), Some(Submit::Phone("+1 555".into())));
    assert_eq!(submission(&Step::Phone, "  "), None);
    assert_eq!(submission(&Step::Code, "12345"), Some(Submit::Code("12345".into())));
    assert_eq!(submission(&Step::Password { hint: "".into() }, " pw "), Some(Submit::Password(" pw ".into())));
    assert_eq!(submission(&Step::Connecting, "x"), None);
}

#[test]
fn same_step_ignores_what_a_step_carries() {
    assert!(same_step(&Step::Qr { link: "a".into() }, &Step::Qr { link: "b".into() }));
    assert!(!same_step(&Step::Phone, &Step::Code));
}

// ---- queue ----

#[test]
fn zones_and_refocus() {
    let states = vec![JobState::Failed("x".into()), JobState::Active, JobState::Done];
    let counts: Vec<usize> = states.iter().map(|s| actions(s).len()).collect();
    let zones = queue::zones(&counts);
    assert_eq!(zones.len(), 4);
    assert_eq!(zones[0].len(), 2);
    assert_eq!(zone_row(row_zone(2)), Some(2));
    assert_eq!(zone_row(ZoneId(FOOTER)), None);
    let ids: Vec<u128> = vec![1, 2, 3];
    let rows = |s: &[(u128, usize)]| s.to_vec();

    // RETRY on the failed job: it becomes active (one action) and stays focused.
    let after = rows(&[(1, 1), (2, 1), (3, 1)]);
    assert_eq!(refocus(&ids, Some(Focus::new(row_zone(0), 1)), &after), Some(Focus::new(row_zone(0), 0)));
    // The focused job was removed: the row now in its place.
    let after = rows(&[(2, 1), (3, 1)]);
    assert_eq!(refocus(&ids, Some(Focus::new(row_zone(0), 1)), &after), Some(Focus::new(row_zone(0), 0)));
    // The last row was removed: the new last row.
    let after = rows(&[(1, 2), (2, 1)]);
    assert_eq!(refocus(&ids, Some(Focus::new(row_zone(2), 0)), &after), Some(Focus::new(row_zone(1), 0)));
    // Everything was cleared: the footer.
    assert_eq!(refocus(&ids, Some(Focus::new(row_zone(1), 0)), &Vec::new()), Some(Focus::new(ZoneId(FOOTER), 0)));
    // Focus outside the rows is kept.
    assert_eq!(refocus(&ids, Some(Focus::new(ZoneId(FOOTER), 0)), &Vec::new()), Some(Focus::new(ZoneId(FOOTER), 0)));
}

#[test]
fn actions_per_state() {
    assert_eq!(actions(&JobState::Failed("x".into())), vec![Action::Retry, Action::Remove]);
    assert_eq!(actions(&JobState::Done), vec![Action::Remove]);
    assert_eq!(actions(&JobState::Cancelled), vec![Action::Remove]);
    assert_eq!(actions(&JobState::Active), vec![Action::Cancel]);
    assert_eq!(Action::Retry.label(), "RETRY");
    assert_eq!(row_zone(600), row_zone(500));
}

// ---- search ----

fn run(plan: Plan) -> (String, u64, u64) {
    match plan {
        Plan::Run { query, delay_ms, generation } => (query, delay_ms, generation),
        Plan::Clear => panic!("expected a search"),
    }
}

#[test]
fn typing_debounces_and_enter_is_immediate() {
    let mut d = Debounce::default();
    let (q, delay, _) = run(d.edit("  dune ", false));
    assert_eq!(q, "dune");
    assert_eq!(delay, DEBOUNCE_MS);
    let (_, delay, _) = run(d.edit("dune", true));
    assert_eq!(delay, 0);
}

#[test]
fn a_newer_edit_cancels_the_pending_search() {
    let mut d = Debounce::default();
    let (q1, _, g1) = run(d.edit("du", false));
    let (q2, _, g2) = run(d.edit("dune", false));
    assert!(!d.fire(g1, &q1));
    assert!(d.fire(g2, &q2));
    assert!(d.is_current(g2));
    d.edit("dunes", false);
    assert!(!d.is_current(g2), "results of an old query are dropped");
}

#[test]
fn the_same_query_runs_once() {
    let mut d = Debounce::default();
    let (q, _, g) = run(d.edit("dune", false));
    assert!(d.fire(g, &q));
    let (q, _, g) = run(d.edit("dune", true));
    assert!(!d.fire(g, &q), "Enter after the debounce fired is free");
}

#[test]
fn blank_query_clears_and_forgets() {
    let mut d = Debounce::default();
    let (q, _, g) = run(d.edit("dune", false));
    assert!(d.fire(g, &q));
    assert_eq!(d.edit("   ", false), Plan::Clear);
    let (q, _, g) = run(d.edit("dune", false));
    assert!(d.fire(g, &q), "the same query runs again after clearing");
    d.reset();
    assert!(!d.is_current(g));
}

#[test]
fn reset_drops_every_older_search() {
    let mut d = Debounce::default();
    let (_, _, g1) = run(d.edit("du", false));
    let (_, _, g2) = run(d.edit("dun", false));
    let (q3, _, g3) = run(d.edit("dune", false));
    assert!(d.is_current(g3));
    d.reset();
    assert!(!d.is_current(g1));
    assert!(!d.is_current(g2));
    assert!(!d.is_current(g3));
    let (q, _, g) = run(d.edit("dune", false));
    assert_eq!(q, q3);
    assert!(d.fire(g, &q), "the last query is forgotten by a reset");
}

#[test]
fn stamps() {
    assert_eq!(Results::Idle.stamp(), None);
    assert_eq!(Results::Loading.stamp(), Some("LOADING"));
    assert_eq!(Results::Found(0).stamp(), Some("NO RESULTS"));
    assert_eq!(Results::Found(3).stamp(), None);
    assert_eq!(Results::Failed.stamp(), Some("REQUEST FAILED"));
}

#[test]
fn back_from_grid_returns_to_input() {
    assert_eq!(back(true, 5), Back::FocusInput);
    assert_eq!(back(false, 5), Back::Leave);
    assert_eq!(back(true, 0), Back::Leave);
}

#[test]
fn search_zones() {
    let z = search::zones(7, 6);
    assert!(z[0].text);
    assert_eq!(z[1].layout, Layout::Grid(6));
    assert_eq!(z[1].len(), 7);
}

// ---- settings ----

#[test]
fn secrets_are_masked() {
    assert_eq!(mask("abc"), "••••••••");
    assert_eq!(mask("0123456789abcdef"), "••••••••CDEF");
    assert_eq!(credential(Some("0123456789abcdef".into()), false, true), "••••••••CDEF");
    assert_eq!(credential(Some("12345".into()), false, false), "12345");
    assert_eq!(credential(Some("feedfacefeedface".into()), true, true), "••••••••FACE");
}

#[test]
fn unset_credentials_read_not_set_or_built_in() {
    assert_eq!(credential(None, true, true), settings::BUILT_IN);
    assert_eq!(credential(None, false, false), settings::NOT_SET);
}

#[test]
fn tool_values_and_text() {
    assert_eq!(tool_value(None), "NOT FOUND");
    assert_eq!(tool_value(Some(&"C:\\tools\\ffmpeg.exe".to_owned())), "C:\\tools\\ffmpeg.exe");
    assert_eq!(unquote("  \"C:\\a b\\x.exe\"  "), "C:\\a b\\x.exe");
    assert_eq!(unquote("\""), "\"");
    assert_eq!(unquote(" plain "), "plain");
    assert_eq!(opt("  "), None);
    assert_eq!(opt(" x "), Some("x".to_owned()));
    assert_eq!(settings::height("2160p DV"), 2160);
    assert_eq!(settings::height("SD"), 0);
    assert_eq!(settings::height(" 720 p"), 720);
}

#[test]
fn dialog_zones_enter_where_expected() {
    let c = choice_zones(5, 3);
    assert_eq!(c[0].id, ZoneId(OPTIONS));
    assert_eq!(c[0].preferred, 3);
    let t = text_zones();
    assert_eq!(t[0].id, ZoneId(FIELD));
    assert!(t[0].text);
    assert_eq!(t[1].preferred, OK);
    let k = confirm_zones();
    assert_eq!(k[0].id, ZoneId(BUTTONS));
    assert_eq!(k[0].preferred, CANCEL);
    let rows = row_ids();
    assert_eq!(rows.iter().position(|r| *r == RowId::Version), Some(rows.len() - 1));
    assert_eq!(settings::zones(rows.len())[0].len(), rows.len());
    assert_eq!(confirm_text(Confirm::SignOut).0, "Sign out of Telegram");
    let total: usize = settings::sections().iter().map(|s| s.1).sum();
    assert_eq!(total, rows.len());
}

// ---- local files ----

fn picked(path: &str, episode: Option<u32>, tag: Tag) -> PickedFile {
    let name = path.rsplit('/').next().unwrap_or(path).to_owned();
    PickedFile { path: path.to_owned(), name, episode, tag }
}

#[test]
fn local_files_parse_names_and_sort() {
    let mut f = LocalFiles::new(MediaType::Tv, 3);
    // Natural order of the names, episodes and tags as the names read.
    f.append(vec![
        picked("/v/extra 2.mkv", None, Tag::Sdr),
        picked("/v/extra 10.mkv", None, Tag::Sdr),
        picked("/v/Show.S02E02.HDR10.mkv", Some(2), Tag::Hdr),
        picked("/v/Show.S02E10.2160p.DV.mkv", Some(10), Tag::Dv),
    ]);
    let rows: Vec<(&str, &str, Tag)> = f.rows.iter().map(|r| (r.name.as_str(), r.episode.as_str(), r.tag)).collect();
    assert_eq!(
        rows,
        vec![
            ("extra 2.mkv", "3", Tag::Sdr),
            ("extra 10.mkv", "4", Tag::Sdr),
            ("Show.S02E02.HDR10.mkv", "2", Tag::Hdr),
            ("Show.S02E10.2160p.DV.mkv", "10", Tag::Dv),
        ]
    );
    // Picking the same file again is ignored; new files continue after the highest.
    f.append(vec![picked("/v/bonus.mkv", None, Tag::Sdr), picked("/v/extra 2.mkv", None, Tag::Sdr)]);
    assert_eq!(f.rows.len(), 5);
    assert_eq!(f.rows[4].episode, "11");
    assert_eq!(f.cycle_tag(0), Some(Tag::Hdr));
    assert_eq!(f.cycle_tag(0), Some(Tag::Dv));
    assert_eq!(f.cycle_tag(0), Some(Tag::Sdr));
    assert_eq!(f.cycle_tag(9), None);
    f.set_episode(1, "");
    let jobs = f.jobs(&tv(&[]));
    assert_eq!(jobs.len(), 4);
    assert_eq!(jobs[2].tag, Some(Tag::Dv));
    assert_eq!(jobs[2].source, JobSource::File("/v/Show.S02E10.2160p.DV.mkv".to_owned()));
    assert!(f.remove(0));
    assert!(!f.remove(9));
    assert_eq!(f.zones().len(), 4 * 3 + 1);
}

#[test]
fn appending_keeps_paths_distinct_and_old_rows_first() {
    let mut f = LocalFiles::new(MediaType::Tv, 1);
    f.append(vec![picked("/v/a.mkv", None, Tag::Sdr), picked("/v/a.mkv", None, Tag::Sdr), picked("/v/b.mkv", None, Tag::Sdr)]);
    let before: Vec<String> = f.rows.iter().map(|r| r.path.clone()).collect();
    assert_eq!(before, vec!["/v/a.mkv".to_owned(), "/v/b.mkv".to_owned()]);
    f.append(vec![picked("/v/b.mkv", None, Tag::Sdr), picked("/v/c.mkv", None, Tag::Sdr), picked("/v/a.mkv", None, Tag::Sdr)]);
    let after: Vec<String> = f.rows.iter().map(|r| r.path.clone()).collect();
    assert_eq!(after, vec!["/v/a.mkv".to_owned(), "/v/b.mkv".to_owned(), "/v/c.mkv".to_owned()]);
}

#[test]
fn local_files_movie_keeps_one() {
    let mut f = LocalFiles::new(MediaType::Movie, 1);
    f.append(vec![picked("/v/a.dolby.vision.mkv", None, Tag::Dv), picked("/v/b.mkv", None, Tag::Sdr)]);
    assert_eq!(f.rows.len(), 1);
    assert_eq!(f.rows[0].name, "b.mkv");
    let jobs = f.jobs(&movie());
    assert_eq!(jobs[0].key, EpisodeKey::movie(9));
    assert_eq!(jobs[0].tag, Some(Tag::Sdr));
    assert_eq!(f.zones().len(), 3);
}

#[test]
fn local_files_start_at_one_when_the_start_is_zero() {
    let mut f = LocalFiles::new(MediaType::Tv, 0);
    f.append(vec![picked("/v/a.mkv", None, Tag::Sdr)]);
    assert_eq!(f.rows[0].episode, "1");
}

fn settings_context(status: TelegramStatus) -> settings::Context {
    settings::Context {
        status,
        library_qualities: Vec::new(),
        tools: settings::ToolPaths::default(),
        history_cleared: false,
        restart_pending: false,
        version: "1.0.0".to_owned(),
    }
}

#[test]
fn account_value_follows_the_auth_state() {
    assert_eq!(settings::account_value(&settings_context(TelegramStatus::Unavailable)), "TDLIB NOT FOUND");
    assert_eq!(settings::account_value(&settings_context(TelegramStatus::Auth(AuthState::WaitPhone))), "SIGNED OUT");
    assert_eq!(settings::account_value(&settings_context(TelegramStatus::Auth(AuthState::Connecting))), "CONNECTING");
    let pending = settings::Context {
        restart_pending: true,
        ..settings_context(TelegramStatus::Auth(AuthState::WaitPhone))
    };
    assert_eq!(settings::account_value(&pending), "RESTART FLOX TO APPLY");
}

#[test]
fn account_value_when_signed_in_or_out() {
    assert_eq!(settings::account_value(&settings_context(TelegramStatus::NotConfigured)), "NOT CONFIGURED");
    let ready = TelegramStatus::Auth(AuthState::Ready { user: "me".to_owned() });
    assert_eq!(settings::account_value(&settings_context(ready)), "SIGNED IN");
    assert_eq!(settings::account_value(&settings_context(TelegramStatus::Auth(AuthState::LoggingOut))), "SIGNING OUT");
}

// ---- 4KHDHub ----

fn hub_file(episode: Option<u32>, gib: u64) -> HubFile {
    HubFile {
        episode,
        name: format!("Show.S02E{:02}.mkv", episode.unwrap_or(0)),
        size_bytes: gib << 30,
        link: format!("https://hubcloud.test/{}", episode.unwrap_or(0)),
    }
}

fn variant(label: &str, season: u32, episodes: &[u32]) -> Variant {
    Variant {
        label: label.to_owned(),
        season: Some(season),
        tag: Tag::Sdr,
        files: episodes.iter().map(|&e| hub_file(Some(e), 2)).collect(),
    }
}

#[test]
fn hub_filters_to_the_season_and_picks_a_complete_default() {
    let t = tv(&[2, 3]);
    let all = vec![
        variant("S02 SDR 2160p WEB-DL H265", 2, &[1, 2]),
        variant("S01 SDR 2160p WEB-DL H265", 1, &[1, 2, 3]),
        variant("S02 SDR 1080p WEB-DL H264", 2, &[1, 2, 3, 4]),
    ];
    let mut p = HubPicker::new(&t, "https://4khdhub.one/show-series-1/".into(), all);
    assert_eq!(p.variants.len(), 2);
    assert_eq!(p.chosen, None);
    // The page's default for episodes 2 and 3 is the first variant that has both.
    p.preselect(Some(1));
    assert_eq!(p.chosen, Some(1), "the first variant with 2 and 3");
    let row = p.row(&p.variants[0], &vec![false]);
    assert_eq!(row.count, "1 OF 2");
    assert!(!row.complete);
    assert_eq!(row.size, "2.0 GB");
    assert_eq!(row.badge, "");
    let row = p.row(&p.variants[1], &vec![false, false]);
    assert_eq!(row.count, "2 OF 2");
    assert!(row.complete);
    assert_eq!(row.size, "4.0 GB");
    assert_eq!(host(&p.page), "4khdhub.one");
}

#[test]
fn hub_skips_uploaded_at_the_same_quality() {
    let t = tv(&[]);
    let all = vec![variant("S02 SDR 1080p WEB-DL", 2, &[1, 2, 3])];
    let mut p = HubPicker::new(&t, "https://4khdhub.one/x/".into(), all);
    p.preselect(Some(0));
    assert_eq!(p.wanted, vec![1, 2, 3, 4, 5]);
    // Episode 1 is in the channel at 1080p, episode 2 only at 2160p DV.
    let have = vec![true, false, false];
    let row = p.row(&p.variants[0], &have);
    assert_eq!(row.badge, "1 UPLOADED");
    assert_eq!(row.count, "3 OF 5");
    assert_eq!(p.queued(&have).len(), 2);
    assert_eq!(p.status(&have), "1 ALREADY UPLOADED AT THIS QUALITY");
    let jobs = p.jobs(&t, &have);
    assert_eq!(jobs.len(), 2);
    assert_eq!(jobs[0].key, EpisodeKey::episode(7, 2, 2));
    assert_eq!(jobs[0].tag, Some(Tag::Sdr));
    assert!(matches!(&jobs[0].source, JobSource::Hub { url, .. } if url.ends_with("/2")));
    p.skip_uploaded = false;
    assert_eq!(p.jobs(&t, &have).len(), 3);
}

#[test]
fn hub_movie_rows() {
    let t = movie();
    let dv = Variant {
        label: "2160p DoVi REMUX".to_owned(),
        season: None,
        tag: Tag::Dv,
        files: vec![HubFile {
            episode: None,
            name: "Film.2160p.DV.mkv".to_owned(),
            size_bytes: 40 << 30,
            link: "https://hubcloud.test/f".to_owned(),
        }],
    };
    let mut p = HubPicker::new(&t, "https://4khdhub.one/film-movie/".into(), vec![dv]);
    p.preselect(Some(0));
    // The channel has the movie at this quality.
    let have = vec![true];
    let row = p.row(&p.variants[0], &have);
    assert_eq!(row.name, "Film.2160p.DV.mkv");
    assert_eq!(row.badge, "UPLOADED");
    assert_eq!(row.count, "");
    assert!(p.jobs(&t, &have).is_empty());
    assert_eq!(p.status(&have), "ALREADY UPLOADED AT THIS QUALITY");
}

#[test]
fn hub_without_a_choice_queues_nothing() {
    let t = tv(&[]);
    let p = HubPicker::new(&t, "https://4khdhub.one/x/".into(), vec![variant("S02 SDR 1080p", 2, &[1])]);
    assert!(p.current().is_none());
    assert!(p.queued(&Vec::new()).is_empty());
    assert_eq!(p.status(&Vec::new()), "");
    assert!(p.jobs(&t, &Vec::new()).is_empty());
}

// ---- library manager ----

fn lib_entry(key: EpisodeKey, quality: &str, size: u64) -> flox_app::model::Entry {
    flox_app::model::Entry { key, quality: quality.to_owned(), codec: "hevc".to_owned(), size, newest_message_id: 1 }
}

#[test]
fn groups_by_title_sorted() {
    let entries = vec![
        lib_entry(EpisodeKey::episode(95396, 2, 1), "1080p", 2_000_000_000),
        lib_entry(EpisodeKey::movie(693134), "2160p DV", 42_000_000_000),
        lib_entry(EpisodeKey::episode(95396, 1, 5), "2160p DV", 9_000_000_000),
        lib_entry(EpisodeKey::episode(95396, 1, 5), "1080p", 3_000_000_000),
        lib_entry(EpisodeKey::movie(1), "720p", 500_000_000),
    ];
    // Each print's size as the size formatter writes it.
    let sizes: Vec<String> = ["2.0 GB", "42.0 GB", "9.0 GB", "3.0 GB", "0.5 GB"].iter().map(|s| s.to_string()).collect();
    let names = vec![
        ((95396, MediaType::Tv), "Severance".to_owned()),
        ((693134, MediaType::Movie), "Dune: Part Two".to_owned()),
    ];
    let (groups, flat) = library::groups(&entries, &names, &sizes);
    let titles: Vec<&str> = groups.iter().map(|g| g.title.as_str()).collect();
    assert_eq!(titles, vec!["Dune: Part Two", "Severance", "TMDB 1"]);
    let sev = &groups[1];
    let keys: Vec<(&str, &str)> = sev.rows.iter().map(|r| (r.key.as_str(), r.quality.as_str())).collect();
    assert_eq!(keys, vec![("S01 E05", "1080P HEVC"), ("S01 E05", "2160P DV HEVC"), ("S02 E01", "1080P HEVC")]);
    assert_eq!(groups[0].rows[0].key, "MOVIE");
    assert_eq!(groups[0].rows[0].size, "42.0 GB");
    assert_eq!(flat.len(), 5);
    for g in &groups {
        for r in &g.rows {
            assert_eq!(library::key_label(flat[r.index].key), r.key);
        }
    }
    assert_eq!(library::confirm_text("Severance", &flat[1], "3.0 GB"), "Severance · S01 E05 · 1080P HEVC · 3.0 GB");
}

#[test]
fn a_movie_and_a_show_with_one_id_stay_apart() {
    let entries = vec![
        lib_entry(EpisodeKey::movie(5), "1080p", 1),
        lib_entry(EpisodeKey::episode(5, 1, 1), "1080p", 1),
    ];
    let sizes = vec!["0.0 GB".to_owned(), "0.0 GB".to_owned()];
    let (groups, _) = library::groups(&entries, &Vec::new(), &sizes);
    assert_eq!(groups.len(), 2);
    assert!(groups.iter().all(|g| g.title == "TMDB 5"));
}

#[test]
fn blank_names_fall_back_to_the_id() {
    let names = vec![((7, MediaType::Movie), "  ".to_owned()), ((8, MediaType::Movie), "Heat".to_owned())];
    assert_eq!(library::title_name(&names, 7, MediaType::Movie), "TMDB 7");
    assert_eq!(library::title_name(&names, 8, MediaType::Movie), "Heat");
    assert_eq!(library::title_name(&names, 8, MediaType::Tv), "TMDB 8");
}

#[test]
fn no_prints_no_groups() {
    let (groups, flat) = library::groups(&Vec::new(), &Vec::new(), &Vec::new());
    assert!(groups.is_empty() && flat.is_empty());
}

#[test]
fn account_label_follows_the_sign_in() {
    let ready = TelegramStatus::Auth(AuthState::Ready { user: "me".to_owned() });
    assert_eq!(settings::label(RowId::Account, &settings_context(ready)), "Sign out of Telegram");
    assert_eq!(settings::label(RowId::Account, &settings_context(TelegramStatus::NotConfigured)), "Sign in to Telegram");
    assert_eq!(settings::label(RowId::Quality, &settings_context(TelegramStatus::NotConfigured)), "Default quality");
    assert_eq!(settings::label(RowId::YtDlpPath, &settings_context(TelegramStatus::NotConfigured)), "yt-dlp path");
}

#[test]
fn unicode_spaces_are_trimmed() {
    assert_eq!(parse_episode("\u{3000}12\u{2028}"), Some(12));
    assert_eq!(parse_episode("\u{a0}7\t"), Some(7));
    assert_eq!(parse_episode("\u{200b}7"), None, "a zero-width space is no white space");
}

// ---- settings: CENTER, LEFT and RIGHT ----

fn toggles() -> settings::Toggles {
    settings::Toggles { subtitles_enabled: false, autoplay_next: true, loudness_boost: true }
}

#[test]
fn left_right_flip_toggles() {
    let mut s = toggles();
    assert_eq!(settings::cycle(RowId::Subtitles, &mut s, 0, 0, -1), settings::Cycle::Flipped);
    assert!(s.subtitles_enabled);
    assert_eq!(settings::cycle(RowId::Loudness, &mut s, 0, 0, 1), settings::Cycle::Flipped);
    assert!(!s.loudness_boost);
}

#[test]
fn rows_without_values_do_not_cycle() {
    let mut s = toggles();
    let before = s;
    for id in [RowId::Channel, RowId::ClearHistory, RowId::TmdbKey, RowId::Account, RowId::FfmpegPath, RowId::Version] {
        assert_eq!(settings::cycle(id, &mut s, 0, 0, 1), settings::Cycle::Nothing, "{id:?}");
    }
    assert_eq!(s, before);
}

#[test]
fn center_actions() {
    let c = settings_context(TelegramStatus::NotConfigured);
    assert_eq!(settings::action(RowId::Subtitles, 0, &c), settings::RowAction::Toggle);
    assert_eq!(settings::action(RowId::Channel, 0, &c), settings::RowAction::Edit(settings::TextField::Channel));
    assert_eq!(settings::action(RowId::ClearHistory, 0, &c), settings::RowAction::Confirm(Confirm::ClearHistory));
    assert_eq!(settings::action(RowId::Account, 0, &c), settings::RowAction::Open(Route::Login));
    assert_eq!(settings::action(RowId::Version, 0, &c), settings::RowAction::Nothing);
    let ready = settings_context(TelegramStatus::Auth(AuthState::Ready { user: "a".into() }));
    assert_eq!(settings::action(RowId::Account, 0, &ready), settings::RowAction::Confirm(Confirm::SignOut));
    assert_eq!(settings::label(RowId::Account, &ready), "Sign out of Telegram");
    assert_eq!(settings::account_value(&ready), "SIGNED IN");
    assert_eq!(settings::label(RowId::Account, &c), "Sign in to Telegram");
}

#[test]
fn a_row_with_options_opens_them() {
    let c = settings_context(TelegramStatus::NotConfigured);
    assert_eq!(settings::action(RowId::SeekStep, 5, &c), settings::RowAction::Choose);
    assert_eq!(settings::action(RowId::Subtitles, 5, &c), settings::RowAction::Toggle);
}

#[test]
fn choices_cycle_and_wrap() {
    assert_eq!(settings::cycle_index(1, 5, 1), 2);
    assert_eq!(settings::cycle_index(4, 5, 1), 0);
    assert_eq!(settings::cycle_index(0, 5, -1), 4);
    assert_eq!(settings::cycle_index(3, 5, -1), 2);
    let mut s = toggles();
    assert_eq!(settings::cycle(RowId::Resume, &mut s, 3, 0, -1), settings::Cycle::Choose(2));
    assert_eq!(s, toggles());
}

#[test]
fn toggling_twice_restores() {
    let mut s = toggles();
    assert!(settings::toggle(RowId::Autoplay, &mut s));
    assert!(!s.autoplay_next);
    assert!(settings::toggle(RowId::Autoplay, &mut s));
    assert_eq!(s, toggles());
    assert!(!settings::toggle(RowId::Speed, &mut s));
    assert_eq!(s, toggles());
}

#[test]
fn center_on_the_settings_screen() {
    let list = |i: usize| Focus { zone: ZoneId(settings::LIST), index: i };
    assert_eq!(settings::settings_activate(list(0), None), settings::Activation::Row(RowId::Quality));
    assert_eq!(settings::settings_activate(list(25), None), settings::Activation::Row(RowId::Version));
    assert_eq!(settings::settings_activate(list(26), None), settings::Activation::Nothing);
    let options = |i: usize| Focus { zone: ZoneId(OPTIONS), index: i };
    let choice = Some(settings::OpenDialog::Choice(3));
    assert_eq!(settings::settings_activate(options(2), choice), settings::Activation::Pick(Some(2)));
    assert_eq!(settings::settings_activate(options(3), choice), settings::Activation::Pick(None));
    assert_eq!(settings::settings_activate(options(0), None), settings::Activation::Pick(None));
    let buttons = |i: usize| Focus { zone: ZoneId(BUTTONS), index: i };
    let text = Some(settings::OpenDialog::Text(settings::TextField::TmdbKey));
    let confirm = Some(settings::OpenDialog::Confirm(Confirm::SignOut));
    assert_eq!(settings::settings_activate(buttons(CANCEL), text), settings::Activation::Close);
    assert_eq!(settings::settings_activate(buttons(OK), text), settings::Activation::Commit);
    assert_eq!(settings::settings_activate(buttons(OK), confirm), settings::Activation::Confirmed(Confirm::SignOut));
    assert_eq!(settings::settings_activate(buttons(OK), choice), settings::Activation::Nothing);
    assert_eq!(settings::settings_activate(Focus { zone: ZoneId(FIELD), index: 0 }, text), settings::Activation::Nothing);
}

#[test]
fn masks_show_only_the_last_four() {
    assert_eq!(mask("0123456789abcdef"), mask("  ffffffffffffcdef  "));
    assert_eq!(mask("0123456789abcdef"), "••••••••CDEF");
    assert_eq!(mask("short"), mask("other"));
    assert_ne!(mask("0123456789abcdef"), mask("0123456789abcdeg"));
}

// ---- the 4KHDHub dialog and the manager's refresh ----

#[test]
fn hub_view_follows_the_phase() {
    let busy = hub_view(&HubPhase::Busy("SEARCHING 4KHDHUB…".to_owned()), &Vec::new());
    assert_eq!(busy.phase, 0);
    assert_eq!(busy.status, "SEARCHING 4KHDHUB…");
    assert_eq!(busy.chosen, -1);
    assert!(busy.skip_uploaded);
    assert_eq!(busy.queue_label, "QUEUE 0");
    assert_eq!(busy.focus, Focus { zone: ZoneId(HUB_FOOTER), index: 0 });
    assert_eq!(busy.zones[0].items, 0);
    let url = hub_view(&HubPhase::Url("PASTE".to_owned()), &Vec::new());
    assert_eq!(url.phase, 1);
    assert_eq!(url.focus.zone, ZoneId(flox_app::vm::ingest::HUB_URL));
    assert_eq!(url.zones[0].items, 1);
    assert_eq!(url.zones[1].items, 1);

    let t = tv(&[]);
    let mut p = HubPicker::new(&t, "https://4khdhub.one/x/".into(), vec![variant("S02 SDR 1080p WEB-DL", 2, &[1, 2, 3])]);
    p.preselect(Some(0));
    let loaded = hub_view(&HubPhase::Loaded(p), &vec![vec![true, false, false]]);
    assert_eq!(loaded.phase, 2);
    assert_eq!(loaded.status, "");
    assert_eq!(loaded.rows.len(), 1);
    assert_eq!(loaded.rows[0].badge, "1 UPLOADED");
    assert_eq!(loaded.rows[0].count, "3 OF 5");
    assert_eq!(loaded.chosen, 0);
    assert_eq!(loaded.host, "4khdhub.one");
    assert_eq!(loaded.note, "1 ALREADY UPLOADED AT THIS QUALITY");
    assert_eq!(loaded.queue_label, "QUEUE 2");
    assert_eq!(loaded.focus, Focus { zone: ZoneId(flox_app::vm::ingest::HUB_VARIANTS), index: 0 });
    assert_eq!(loaded.zones[2].items, 1);
    assert_eq!(loaded.zones[3].items, 1);
}

#[test]
fn manager_refresh_reads_only_when_connected() {
    assert_eq!(library::manager_refresh(false, 7), (Load::NotConnected, 7, false));
    assert_eq!(library::manager_refresh(true, 7), (Load::Reading, 8, true));
    assert_eq!(library::manager_refresh(true, u64::MAX), (Load::Reading, 0, true));
    assert_eq!(library::manager_loaded(8, 7, Ok(())), None);
    assert_eq!(library::manager_loaded(8, 8, Ok(())), Some(Load::Loaded));
    assert_eq!(library::manager_loaded(8, 8, Err("timed out".to_owned())), Some(Load::Failed("timed out".to_owned())));
}

#[test]
fn choices_wrap_by_any_step() {
    assert_eq!(settings::cycle_index(1, 5, 7), 3);
    assert_eq!(settings::cycle_index(1, 5, -7), 4);
    assert_eq!(settings::cycle_index(0, 3, i64::MIN), 1);
    assert_eq!(settings::cycle_index(2, 3, i64::MAX), 0);
    let mut s = toggles();
    assert_eq!(settings::cycle(RowId::SeekStep, &mut s, 5, 4, 2), settings::Cycle::Choose(1));
}

#[test]
fn files_that_fit_are_all_listed() {
    let mut f = LocalFiles::new(MediaType::Tv, 1);
    let first: Vec<PickedFile> = (0..198).map(|i| picked(&format!("/v/{i:03}.mkv"), None, Tag::Sdr)).collect();
    f.append(first);
    assert_eq!(f.rows.len(), 198);
    f.append(vec![
        picked("/v/new1.mkv", None, Tag::Sdr),
        picked("/v/000.mkv", None, Tag::Sdr),
        picked("/v/new1.mkv", None, Tag::Sdr),
        picked("/v/new2.mkv", None, Tag::Sdr),
    ]);
    assert_eq!(f.rows.len(), 200);
    assert!(f.rows.iter().any(|r| r.path == "/v/new1.mkv"));
    assert!(f.rows.iter().any(|r| r.path == "/v/new2.mkv"));
    f.append(vec![picked("/v/new3.mkv", None, Tag::Sdr)]);
    assert_eq!(f.rows.len(), 200, "the dialog is full");
}

#[test]
fn huge_sizes_read_as_doubles() {
    assert_eq!(gb(u64::MAX), "17179869184.0 GB");
    assert_eq!(gb((1 << 53) + 1), "8388608.0 GB");
    assert_eq!(gb(1 << 60), "1073741824.0 GB");
}

#[test]
fn text_edits_apply_and_clear() {
    let mut s = settings::TextSettings::default();
    assert_eq!(settings::apply_text(settings::TextField::TelegramApiId, &mut s, " 12345 "), Ok(()));
    assert_eq!(s.telegram_api_id, Some(12345));
    assert_eq!(settings::apply_text(settings::TextField::TelegramApiId, &mut s, "12a"), Err(settings::API_ID_NOT_A_NUMBER));
    assert_eq!(settings::apply_text(settings::TextField::TelegramApiId, &mut s, "-4"), Err(settings::API_ID_NOT_A_NUMBER));
    assert_eq!(s.telegram_api_id, Some(12345), "unchanged on error");
    assert_eq!(settings::apply_text(settings::TextField::TelegramApiId, &mut s, "  "), Ok(()));
    assert_eq!(s.telegram_api_id, None);

    settings::apply_text(settings::TextField::FfmpegPath, &mut s, r#" "C:\tools\ffmpeg.exe" "#).ok();
    assert_eq!(s.ffmpeg_path.as_deref(), Some(r"C:\tools\ffmpeg.exe"));
    settings::apply_text(settings::TextField::FfmpegPath, &mut s, "").ok();
    assert_eq!(s.ffmpeg_path, None);

    settings::apply_text(settings::TextField::TmdbKey, &mut s, " key ").ok();
    assert_eq!(s.tmdb_api_key.as_deref(), Some("key"));

    settings::apply_text(settings::TextField::Channel, &mut s, "  ").ok();
    assert_eq!(s.telegram_channel, "");
    assert_eq!(settings::apply_text(settings::TextField::TelegramApiId, &mut s, "2147483648"), Err(settings::API_ID_NOT_A_NUMBER));
    assert_eq!(settings::apply_text(settings::TextField::TelegramApiId, &mut s, "+7"), Ok(()));
    assert_eq!(s.telegram_api_id, Some(7));
}

fn common_qualities() -> Vec<String> {
    ["2160p", "1440p", "1080p", "720p", "576p", "480p"].iter().map(|q| (*q).to_owned()).collect()
}

#[test]
fn quality_choices_include_the_library_tallest_first() {
    let library = vec!["1080p".to_owned(), "2160p DV".to_owned(), "720p HDR".to_owned(), "2160p DV".to_owned()];
    let q = settings::qualities(&common_qualities(), &library, None);
    let labels: Vec<Option<&str>> = q.iter().map(|q| q.as_deref()).collect();
    assert_eq!(
        labels,
        [None, Some("2160p"), Some("2160p DV"), Some("1440p"), Some("1080p"), Some("720p"), Some("720p HDR"), Some("576p"), Some("480p")]
    );
}

#[test]
fn a_saved_quality_missing_from_the_list_is_kept_last() {
    let q = settings::qualities(&common_qualities(), &Vec::new(), Some("4320p"));
    assert_eq!(q.last(), Some(&Some("4320p".to_owned())));
    assert_eq!(q.len(), 8);
    let listed = settings::qualities(&common_qualities(), &vec!["  1080p ".to_owned(), String::new()], Some("1080p"));
    assert_eq!(listed.len(), 7);
}
