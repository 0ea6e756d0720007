use flox_app::fixtures::{synthesize, FixtureImages, ImageSize};
use flox_app::model::{
    AuthState, EmptyLibrary, EpisodeInfo, EpisodeKey, LibraryIndex, LibrarySort, MediaType, Print, ProgressRecord,
    SeasonInfo, TelegramStatus, TitleDetails, TitleSummary,
};
use flox_app::graphs::Graphs;
use flox_app::router::{PlayRequest, Route, Screen};
use flox_app::vm::details::{
    details_loaded, details_screen, episodes_loaded, episodes_screen, DetailsLoad, EpisodesLoad,
    episode_meta, episode_request, header_meta, initial_season, play_request, visible_episodes, visible_seasons,
};
use flox_app::vm::home::{
    continue_meta, continue_visible, library_keys, library_row, library_title, resume_request,
    should_load_library, sort_library, title_meta, LibraryLoad, LibraryRow, LibraryTitle, RowLoad,
};
use flox_app::vm::login::qr_rgba;
use flox_app::vm::queue::{drained, footer, pending, JobState, IDLE, WORKING};

fn print(quality: &str, size: u64, newest: i64) -> Print {
    Print { quality: quality.to_owned(), size, newest_message_id: newest }
}

fn library(items: &[(EpisodeKey, Print)]) -> LibraryIndex {
    let mut lib = LibraryIndex::new();
    for (k, p) in items {
        lib.add(*k, p.clone());
    }
    lib
}

fn summary(id: u64, media: MediaType, title: &str) -> TitleSummary {
    TitleSummary {
        id,
        media,
        title: title.to_owned(),
        year: Some(2020),
        poster_path: Some(format!("/{id}.jpg")),
        overview: String::new(),
    }
}

fn details(id: u64, media: MediaType, seasons: &[(u32, u32)]) -> TitleDetails {
    TitleDetails {
        summary: TitleSummary {
            id,
            media,
            title: "T".to_owned(),
            year: Some(2021),
            poster_path: None,
            overview: String::new(),
        },
        runtime_min: Some(148),
        seasons: seasons.iter().map(|&(number, episode_count)| SeasonInfo { number, episode_count }).collect(),
    }
}

fn progress(season: u32, episode: u32, watched: u32) -> ProgressRecord {
    ProgressRecord {
        id: 9,
        media: MediaType::Tv,
        title: "T".to_owned(),
        poster: None,
        watched,
        duration: 3000,
        season,
        episode,
        updated: 0,
    }
}

fn episode(season: u32, episode: u32) -> EpisodeInfo {
    EpisodeInfo { season, episode, name: format!("Episode {episode}"), overview: String::new(), runtime_min: Some(42), still_path: None }
}

fn record(media: MediaType, watched: u32, duration: u32) -> ProgressRecord {
    ProgressRecord {
        id: 42,
        media,
        title: "Severance".to_owned(),
        poster: Some("/sev.jpg".to_owned()),
        watched,
        duration,
        season: 2,
        episode: 3,
        updated: 1,
    }
}

// ---- details ----

#[test]
fn header_meta_stamps_movies() {
    let lib = library(&[(EpisodeKey::movie(9), print("1080p", 1, 1)), (EpisodeKey::movie(9), print("2160p DV", 1, 1))]);
    assert_eq!(header_meta(&details(9, MediaType::Movie, &[]), &lib), "2021 · MOVIE · 148 MIN · LIBRARY · 1080P, 2160P DV");
    assert_eq!(header_meta(&details(9, MediaType::Movie, &[]), &EmptyLibrary), "2021 · MOVIE · 148 MIN");
    let tv_lib = library(&[(EpisodeKey::episode(9, 1, 1), print("1080p", 1, 1))]);
    let mut tv = details(9, MediaType::Tv, &[(1, 8)]);
    tv.runtime_min = None;
    tv.summary.year = None;
    assert_eq!(header_meta(&tv, &tv_lib), "TV");
}

#[test]
fn episode_meta_lines() {
    assert_eq!(episode_meta(&episode(1, 1), &Vec::new()), "E01 · 42 MIN");
    let mut e = episode(2, 12);
    e.runtime_min = None;
    assert_eq!(episode_meta(&e, &vec!["1080p".to_owned(), "2160p DV".to_owned()]), "E12 · LIBRARY · 1080P, 2160P DV");
}

#[test]
fn blank_qualities_leave_no_stamp() {
    assert_eq!(episode_meta(&episode(1, 3), &vec!["  ".to_owned(), " 720p ".to_owned()]), "E03 · 42 MIN · LIBRARY · 720P");
    assert_eq!(episode_meta(&episode(1, 3), &vec![" ".to_owned()]), "E03 · 42 MIN");
}

#[test]
fn library_only_filters_seasons_and_episodes() {
    let lib = library(&[
        (EpisodeKey::episode(9, 2, 1), print("1080p", 1, 1)),
        (EpisodeKey::episode(9, 2, 3), print("720p", 1, 1)),
    ]);
    let d = details(9, MediaType::Tv, &[(1, 4), (2, 4), (3, 2)]);
    let all = visible_seasons(&d, &lib, false);
    assert_eq!(all.len(), 3);
    let only: Vec<u32> = visible_seasons(&d, &lib, true).iter().map(|s| s.number).collect();
    assert_eq!(only, [2]);
    let eps = || (1..=4).map(|e| episode(2, e)).collect::<Vec<EpisodeInfo>>();
    assert_eq!(visible_episodes(9, eps(), &lib, false).len(), 4);
    let kept: Vec<u32> = visible_episodes(9, eps(), &lib, true).iter().map(|e| e.episode).collect();
    assert_eq!(kept, [1, 3]);
}

#[test]
fn initial_season_from_progress() {
    let d = details(9, MediaType::Tv, &[(1, 4), (2, 4)]);
    let seasons = visible_seasons(&d, &EmptyLibrary, false);
    assert_eq!(initial_season(&seasons, None), Some(1));
    assert_eq!(initial_season(&seasons, Some(&progress(2, 1, 5))), Some(2));
    assert_eq!(
        initial_season(&seasons, Some(&progress(7, 1, 5))),
        Some(1),
        "a season that is not listed falls back to the first"
    );
    assert_eq!(initial_season(&Vec::new(), None), None);
}

#[test]
fn play_requests() {
    let tv = details(9, MediaType::Tv, &[(1, 4)]);
    let p = progress(2, 3, 600);
    assert_eq!(
        play_request(&tv, Some(&p), Some((1, 1)), true),
        PlayRequest { key: EpisodeKey::episode(9, 2, 3), start_at: Some(600), library_only: true }
    );
    assert_eq!(play_request(&tv, None, Some((2, 5)), true).key, EpisodeKey::episode(9, 2, 5));
    assert_eq!(
        play_request(&tv, None, None, false),
        PlayRequest { key: EpisodeKey::episode(9, 1, 1), start_at: None, library_only: false }
    );
    let movie = details(9, MediaType::Movie, &[]);
    let mut mp = progress(1, 1, 120);
    mp.media = MediaType::Movie;
    assert_eq!(
        play_request(&movie, Some(&mp), None, false),
        PlayRequest { key: EpisodeKey::movie(9), start_at: Some(120), library_only: false }
    );
}

#[test]
fn unwatched_progress_starts_from_the_first_episode() {
    let tv = details(9, MediaType::Tv, &[(1, 4)]);
    let p = progress(2, 3, 0);
    assert_eq!(
        play_request(&tv, Some(&p), Some((1, 2)), false),
        PlayRequest { key: EpisodeKey::episode(9, 1, 2), start_at: None, library_only: false }
    );
}

#[test]
fn episodes_resume_only_the_saved_one() {
    let p = progress(2, 3, 600);
    assert_eq!(episode_request(9, &episode(2, 3), Some(&p), false).start_at, Some(600));
    assert_eq!(episode_request(9, &episode(2, 4), Some(&p), false).start_at, None);
    assert_eq!(
        episode_request(9, &episode(2, 4), None, true),
        PlayRequest { key: EpisodeKey::episode(9, 2, 4), start_at: None, library_only: true }
    );
}

// ---- home ----

#[test]
fn title_and_continue_meta() {
    assert_eq!(title_meta(Some(2020), MediaType::Tv), "2020 · TV");
    assert_eq!(title_meta(None, MediaType::Movie), "MOVIE");
    assert_eq!(continue_meta(&record(MediaType::Tv, 600, 2400)), "TV · S2 E3");
    assert_eq!(continue_meta(&record(MediaType::Movie, 0, 0)), "MOVIE");
}

#[test]
fn continue_requests_resume_in_the_player() {
    assert_eq!(
        resume_request(&record(MediaType::Tv, 600, 2400)),
        PlayRequest { key: EpisodeKey::episode(42, 2, 3), start_at: Some(600), library_only: false }
    );
    assert_eq!(
        resume_request(&record(MediaType::Movie, 0, 0)),
        PlayRequest { key: EpisodeKey::movie(42), start_at: None, library_only: false }
    );
}

#[test]
fn continue_row_hidden_when_empty() {
    assert!(!continue_visible::<ProgressRecord>(&[]));
    assert!(continue_visible(&[record(MediaType::Movie, 10, 100)]));
}

#[test]
fn library_row_states() {
    let ready = TelegramStatus::Auth(AuthState::Ready { user: "me".to_owned() });
    assert_eq!(library_row::<String>(&TelegramStatus::NotConfigured, &LibraryLoad::Idle), LibraryRow::SetUp);
    assert_eq!(library_row::<String>(&TelegramStatus::Unavailable, &LibraryLoad::Idle), LibraryRow::Unavailable);
    assert_eq!(
        library_row::<String>(&TelegramStatus::Auth(AuthState::Connecting), &LibraryLoad::Idle),
        LibraryRow::Loading
    );
    for waiting in [
        AuthState::WaitPhone,
        AuthState::WaitQr { link: "tg://login?token=x".to_owned() },
        AuthState::WaitCode,
        AuthState::Failed("x".to_owned()),
        AuthState::LoggingOut,
    ] {
        assert_eq!(library_row::<String>(&TelegramStatus::Auth(waiting), &LibraryLoad::Idle), LibraryRow::Connect);
    }
    assert_eq!(library_row::<String>(&ready, &LibraryLoad::Idle), LibraryRow::Loading);
    assert_eq!(library_row::<String>(&ready, &LibraryLoad::Loading), LibraryRow::Loading);
    assert_eq!(library_row::<String>(&ready, &LibraryLoad::Failed), LibraryRow::Failed);
    assert_eq!(library_row::<String>(&ready, &LibraryLoad::Loaded(Vec::new())), LibraryRow::Empty);
    let cards = vec!["A".to_owned()];
    assert_eq!(library_row(&ready, &LibraryLoad::Loaded(cards.clone())), LibraryRow::Items(cards));
}

#[test]
fn library_row_labels_and_routes() {
    assert_eq!(LibraryRow::<String>::SetUp.prompt(), Some("SET UP TELEGRAM"));
    assert_eq!(LibraryRow::<String>::SetUp.prompt_route(), Some(Route::Settings));
    assert_eq!(LibraryRow::<String>::Connect.prompt(), Some("CONNECT TELEGRAM"));
    assert_eq!(LibraryRow::<String>::Connect.prompt_route(), Some(Route::Login));
    assert_eq!(LibraryRow::<String>::Connect.focusable_len(), 1);
    assert_eq!(LibraryRow::<String>::Loading.stamp(), Some("LOADING"));
    assert_eq!(LibraryRow::<String>::Loading.focusable_len(), 0);
    assert_eq!(LibraryRow::<String>::Empty.stamp(), Some("NOTHING UPLOADED YET"));
    assert_eq!(LibraryRow::<String>::Failed.stamp(), Some("REQUEST FAILED"));
    assert_eq!(LibraryRow::<String>::Items(Vec::new()).stamp(), None);
}

#[test]
fn library_loads_once_when_ready() {
    let ready = TelegramStatus::Auth(AuthState::Ready { user: "me".to_owned() });
    assert!(should_load_library::<String>(&ready, &LibraryLoad::Idle));
    assert!(!should_load_library::<String>(&ready, &LibraryLoad::Loading));
    assert!(!should_load_library::<String>(&ready, &LibraryLoad::Failed));
    assert!(!should_load_library::<String>(
        &TelegramStatus::Auth(AuthState::WaitQr { link: String::new() }),
        &LibraryLoad::Idle
    ));
}

#[test]
fn library_title_totals_prints() {
    let lib = library(&[
        (EpisodeKey::episode(5, 1, 2), print("1080p", 100, 30)),
        (EpisodeKey::episode(5, 1, 2), print("2160p DV", 400, 31)),
        (EpisodeKey::episode(5, 2, 1), print("720p", 50, 10)),
    ]);
    let d = TitleDetails {
        summary: summary(5, MediaType::Tv, "Dark"),
        runtime_min: None,
        seasons: vec![SeasonInfo { number: 1, episode_count: 3 }, SeasonInfo { number: 2, episode_count: 1 }],
    };
    assert_eq!(library_keys(&d).len(), 4);
    let t = library_title(d, &lib);
    assert_eq!((t.newest, t.size), (31, 550));
    let none = library_title(
        TitleDetails { summary: summary(6, MediaType::Movie, "Heat"), runtime_min: None, seasons: Vec::new() },
        &EmptyLibrary,
    );
    assert_eq!((none.newest, none.size), (0, 0));
}

#[test]
fn library_size_saturates() {
    let lib = library(&[
        (EpisodeKey::movie(6), print("1080p", u64::MAX - 1, -5)),
        (EpisodeKey::movie(6), print("720p", 10, -9)),
    ]);
    let t = library_title(
        TitleDetails { summary: summary(6, MediaType::Movie, "Heat"), runtime_min: None, seasons: Vec::new() },
        &lib,
    );
    assert_eq!((t.newest, t.size), (-5, u64::MAX));
}

#[test]
fn library_sort_orders() {
    let t = |id: u64, title: &str, newest: i64, size: u64| LibraryTitle {
        summary: summary(id, MediaType::Movie, title),
        newest,
        size,
    };
    let titles = vec![t(1, "beta", 5, 10), t(2, "Alpha", 9, 5), t(3, "gamma", 1, 99)];
    let ids = |v: Vec<TitleSummary>| v.into_iter().map(|s| s.id).collect::<Vec<_>>();
    assert_eq!(ids(sort_library(titles.clone(), LibrarySort::Title)), [2, 1, 3]);
    assert_eq!(ids(sort_library(titles.clone(), LibrarySort::DateAdded)), [2, 1, 3]);
    assert_eq!(ids(sort_library(titles, LibrarySort::Size)), [3, 1, 2]);
}

#[test]
fn library_sort_keeps_ties_in_order() {
    let t = |id: u64, title: &str, newest: i64, size: u64| LibraryTitle {
        summary: summary(id, MediaType::Movie, title),
        newest,
        size,
    };
    let titles = vec![t(1, "Dune", 5, 10), t(2, "heat", 9, 10), t(3, "dune", 5, 99), t(4, "Alien", 5, 10)];
    let ids = |v: Vec<TitleSummary>| v.into_iter().map(|s| s.id).collect::<Vec<_>>();
    assert_eq!(ids(sort_library(titles.clone(), LibrarySort::Title)), [4, 1, 3, 2]);
    assert_eq!(ids(sort_library(titles.clone(), LibrarySort::DateAdded)), [2, 1, 3, 4]);
    assert_eq!(ids(sort_library(titles, LibrarySort::Size)), [3, 1, 2, 4]);
}

#[test]
fn trending_row_stamps() {
    assert_eq!(RowLoad::<String>::Loading.stamp(), Some("LOADING"));
    assert_eq!(RowLoad::<String>::Failed.stamp(), Some("REQUEST FAILED"));
    assert_eq!(RowLoad::<String>::Loaded(Vec::new()).stamp(), Some("NO RESULTS"));
    assert_eq!(RowLoad::Loaded(vec!["A".to_owned()]).stamp(), None);
}

// ---- queue ----

#[test]
fn counts_footer_and_drain() {
    let busy = vec![JobState::Done, JobState::Active, JobState::Active];
    assert_eq!(pending(&busy), 2);
    assert_eq!(footer(&busy), WORKING);
    let idle = vec![JobState::Done, JobState::Failed("x".into())];
    assert_eq!(pending(&idle), 0);
    assert_eq!(footer(&idle), IDLE);
    assert_eq!(footer(&Vec::new()), IDLE);
    assert!(drained(&busy, &idle));
    assert!(!drained(&idle, &idle));
    assert!(!drained(&busy, &busy));
}

// ---- login ----

#[test]
fn qr_is_280_px_black_on_white_with_a_quiet_zone() {
    let px = qr_rgba("tg://login?token=AQIDBAUGBwgJCgsMDQ4PEA", 280).unwrap();
    assert_eq!(px.len(), 280 * 280 * 4);
    let at = |x: usize, y: usize| px[(y * 280 + x) * 4];
    let dark = px.chunks(4).filter(|p| p[0] == 0).count();
    assert!(dark > 280 * 280 / 5, "{dark} dark pixels");
    // The corner is quiet zone; the finder pattern starts just inside it.
    assert_eq!(at(0, 0), 0xFF);
    let code = qrcode::QrCode::new(b"tg://login?token=AQIDBAUGBwgJCgsMDQ4PEA").unwrap();
    let modules = code.width() + 2;
    let scale = 280 / modules;
    let offset = (280 - modules * scale) / 2;
    assert_eq!(at(offset + scale, offset + scale), 0);
    assert_eq!(at(offset + scale - 1, offset + scale - 1), 0xFF);
    assert!(px.chunks(4).all(|p| p[3] == 0xFF));
}

#[test]
fn qr_needs_a_pixel_per_module() {
    assert_eq!(qr_rgba("tg://login?token=AQIDBAUGBwgJCgsMDQ4PEA", 10), None);
    assert_eq!(qr_rgba("x", 0), None);
}

// ---- fixtures ----

#[test]
fn synthesized_images_have_the_asked_size() {
    let img = synthesize("/a.jpg", ImageSize::W300);
    assert_eq!((img.width, img.height), (224, 126));
    assert_eq!(img.pixels.len(), 224 * 126 * 4);
}

#[test]
fn synthesized_tone_follows_the_path_hash() {
    // FNV-1a of "/a.jpg" is 0x27461734, which is 0x04 modulo 0x50: the tone is 0x2e.
    let img = FixtureImages.image("/a.jpg", ImageSize::W342);
    assert_eq!((img.width, img.height), (160, 240));
    assert_eq!(&img.pixels[0..4], &[0x2e, 0x2e, 0x2e, 0xFF]);
    let lower = (160 * 4) * 160;
    assert_eq!(&img.pixels[lower..lower + 4], &[0x1a, 0x1a, 0x1a, 0xFF]);
    assert_eq!(&img.pixels[lower - 4..lower], &[0x2e, 0x2e, 0x2e, 0xFF]);
}

// ---- focus graphs ----

fn graph(n: usize) -> flox_app::focus::FocusGraph {
    flox_app::focus::FocusGraph { zones: vec![flox_app::focus::Zone::row(flox_app::focus::ZoneId(n as i32), n)] }
}

#[test]
fn each_screen_has_its_graph() {
    let mut g = Graphs {
        home: graph(1),
        search: graph(2),
        details: graph(3),
        settings: graph(4),
        login: graph(5),
        queue: graph(6),
        library: graph(7),
        other: graph(8),
    };
    assert_eq!(g.get(Screen::Details).zones[0].items, 3);
    assert_eq!(g.get(Screen::Player).zones[0].items, 8);
    g.get_mut(Screen::Queue).zones.clear();
    assert!(g.queue.zones.is_empty());
    assert_eq!(g.get(Screen::Library).zones[0].items, 7);
}

#[test]
fn modifiers_keep_each_key() {
    let m = flox_app::focus::modifiers(true, false, true, false);
    assert!(m.control && !m.shift && m.alt && !m.meta);
}

// ---- a loaded title and season ----

#[test]
fn a_loaded_show_selects_the_saved_season() {
    let lib = library(&[(EpisodeKey::episode(9, 2, 1), print("1080p", 1, 1))]);
    let d = details(9, MediaType::Tv, &[(1, 8), (2, 10), (3, 6)]);
    let v = details_screen(&d, &lib, false, Some(&progress(2, 3, 60)));
    assert_eq!(v.seasons.len(), 3);
    assert_eq!(v.selected, Some(2));
    assert_eq!(v.selected_index, 1);
    let pills: Vec<(&str, bool)> = v.pills.iter().map(|p| (p.label.as_str(), p.selected)).collect();
    assert_eq!(pills, vec![("S1", false), ("S2", true), ("S3", false)]);
    assert_eq!(v.play.text, "RESUME S2 E3");
    assert!(v.play.resume);
    assert_eq!(v.meta, "2021 · TV · 148 MIN");
    assert_eq!(v.zones.len(), 3);
    assert_eq!(v.zones[1].items, 3);
    // In library-only mode just the uploaded season is offered; the saved one is gone.
    let only = details_screen(&d, &lib, true, Some(&progress(3, 1, 60)));
    assert_eq!(only.seasons.len(), 1);
    assert_eq!(only.selected, Some(2));
    assert_eq!(only.selected_index, 0);
}

#[test]
fn a_loaded_movie_has_no_seasons() {
    let d = details(9, MediaType::Movie, &[(1, 8)]);
    let v = details_screen(&d, &EmptyLibrary, false, None);
    assert!(v.seasons.is_empty());
    assert_eq!(v.selected, None);
    assert_eq!(v.selected_index, 0);
    assert_eq!(v.play.text, "PLAY");
    assert!(!v.play.resume);
}

#[test]
fn stale_and_failed_details_results() {
    let d = details(9, MediaType::Tv, &[(1, 8)]);
    assert_eq!(details_loaded(4, 3, Some(&d), &EmptyLibrary, false, None), DetailsLoad::Stale);
    assert_eq!(details_loaded(4, 4, None, &EmptyLibrary, false, None), DetailsLoad::Failed);
    match details_loaded(4, 4, Some(&d), &EmptyLibrary, false, None) {
        DetailsLoad::Shown(v) => assert_eq!(v.selected, Some(1)),
        other => panic!("expected a shown title, got {other:?}"),
    }
}

#[test]
fn a_loaded_season_lists_metas_and_stills() {
    let lib = library(&[(EpisodeKey::episode(9, 1, 2), print("2160p DV", 1, 1))]);
    let mut first = episode(1, 1);
    first.still_path = Some("/a.jpg".to_owned());
    let second = episode(1, 2);
    let mut third = episode(1, 3);
    third.still_path = Some("/c.jpg".to_owned());
    let v = episodes_screen(9, vec![first, second, third], &lib, false);
    assert_eq!(v.episodes.len(), 3);
    assert_eq!(v.stamp, "");
    assert_eq!(v.metas, vec!["E01 · 42 MIN".to_owned(), "E02 · 42 MIN · LIBRARY · 2160P DV".to_owned(), "E03 · 42 MIN".to_owned()]);
    assert_eq!(v.stills, vec![(0, "/a.jpg".to_owned()), (2, "/c.jpg".to_owned())]);
    let only = episodes_screen(9, vec![episode(1, 1), episode(1, 2)], &lib, true);
    assert_eq!(only.episodes.len(), 1);
    assert_eq!(only.episodes[0].episode, 2);
    let none = episodes_screen(9, vec![episode(1, 1)], &EmptyLibrary, true);
    assert!(none.episodes.is_empty());
    assert_eq!(none.stamp, "NO RESULTS");
}

#[test]
fn stale_and_failed_season_results() {
    assert_eq!(episodes_loaded(2, 1, 9, Some(vec![episode(1, 1)]), &EmptyLibrary, false), EpisodesLoad::Stale);
    assert_eq!(episodes_loaded(2, 2, 9, None, &EmptyLibrary, false), EpisodesLoad::Failed);
    match episodes_loaded(2, 2, 9, Some(vec![episode(1, 1)]), &EmptyLibrary, false) {
        EpisodesLoad::Shown(v) => assert_eq!(v.episodes.len(), 1),
        other => panic!("expected a shown season, got {other:?}"),
    }
}
