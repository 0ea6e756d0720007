use flox_app::model::{EpisodeKey, MediaType, TmdbId};
use flox_app::router::{PlayRequest, Route, Router, Screen, Transition};

fn details(id: TmdbId) -> Route {
    Route::Details { id, media: MediaType::Movie, library_only: false }
}

#[test]
fn starts_on_home_and_back_stays() {
    let mut r = Router::new();
    assert_eq!(r.current(), &Route::Home);
    assert_eq!(r.back(), Transition::Stayed);
    assert_eq!(r.stack(), &[Route::Home]);
}

#[test]
fn push_and_back() {
    let mut r = Router::new();
    let (closed, t) = r.push(Route::Search);
    assert!(closed.is_empty());
    assert_eq!(t, Transition::Pushed { to: Route::Search });
    r.push(details(7));
    assert_eq!(r.stack().len(), 3);
    assert_eq!(r.back(), Transition::Popped { from: details(7), to: Route::Search });
    assert_eq!(r.back(), Transition::Popped { from: Route::Search, to: Route::Home });
}

#[test]
fn pushing_the_current_route_stays() {
    let mut r = Router::new();
    r.push(Route::Settings);
    assert_eq!(r.push(Route::Settings), (Vec::new(), Transition::Stayed));
    assert_eq!(r.stack().len(), 2);
}

#[test]
fn reopening_a_screen_unwinds_to_it() {
    let mut r = Router::new();
    r.push(Route::Search);
    r.push(details(1));
    let (closed, t) = r.push(Route::Search);
    assert_eq!(closed, vec![details(1), Route::Search]);
    assert_eq!(t, Transition::Pushed { to: Route::Search });
    assert_eq!(r.stack(), &[Route::Home, Route::Search]);
}

#[test]
fn details_replaces_details() {
    let mut r = Router::new();
    r.push(details(1));
    r.push(details(2));
    assert_eq!(r.stack(), &[Route::Home, details(2)]);
}

#[test]
fn push_home_unwinds_everything() {
    let mut r = Router::new();
    r.push(Route::Search);
    r.push(details(3));
    let (closed, t) = r.push(Route::Home);
    assert_eq!(closed, vec![details(3), Route::Search]);
    assert_eq!(t, Transition::Popped { from: details(3), to: Route::Home });
    assert_eq!(r.stack(), &[Route::Home]);
}

#[test]
fn player_route_maps_to_player_screen() {
    let req = PlayRequest { key: EpisodeKey::episode(5, 2, 3), start_at: Some(90), library_only: true };
    assert_eq!(Route::Player(req).screen(), Screen::Player);
    assert_eq!(details(1).screen(), Screen::Details);
}

#[test]
fn back_after_push_returns_to_the_same_stack() {
    let mut r = Router::new();
    r.push(Route::Search);
    let before: Vec<Route> = r.stack().to_vec();
    r.push(Route::Queue);
    r.back();
    assert_eq!(r.stack(), &before[..]);
}
