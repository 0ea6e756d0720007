//! Screen routing: the destinations and the back stack.
use vstd::prelude::*;

use crate::model::{EpisodeKey, MediaType, TmdbId};

verus! {

/// The screens of the window.
#[derive(Clone, Copy, Debug, PartialEq, Eq, Hash, Structural)]
pub enum Screen {
    Home,
    Search,
    Details,
    Queue,
    Library,
    Settings,
    Login,
    Player,
}

/// What the player should open.
#[derive(Clone, Copy, Debug, PartialEq, Eq, Structural)]
pub struct PlayRequest {
    pub key: EpisodeKey,
    pub start_at: Option<u32>,
    pub library_only: bool,
}

/// A destination.
#[derive(Clone, Copy, Debug, PartialEq, Eq, Structural)]
pub enum Route {
    Home,
    Search,
    Details { id: TmdbId, media: MediaType, library_only: bool },
    Queue,
    Library,
    Settings,
    Login,
    Player(PlayRequest),
}

impl Route {
    pub open spec fn screen_of(self) -> Screen {
        match self {
            Route::Home => Screen::Home,
            Route::Search => Screen::Search,
            Route::Details { .. } => Screen::Details,
            Route::Queue => Screen::Queue,
            Route::Library => Screen::Library,
            Route::Settings => Screen::Settings,
            Route::Login => Screen::Login,
            Route::Player(_) => Screen::Player,
        }
    }

    /// The screen that shows this route.
    pub fn screen(&self) -> (s: Screen)
        ensures
            s == self.screen_of(),
    {
        match self {
            Route::Home => Screen::Home,
            Route::Search => Screen::Search,
            Route::Details { .. } => Screen::Details,
            Route::Queue => Screen::Queue,
            Route::Library => Screen::Library,
            Route::Settings => Screen::Settings,
            Route::Login => Screen::Login,
            Route::Player(_) => Screen::Player,
        }
    }
}

/// What a navigation did, so the shell knows which screens to set up or reset.
#[derive(Clone, Copy, Debug, PartialEq, Eq, Structural)]
pub enum Transition {
    /// `to` was opened on top of the stack.
    Pushed { to: Route },
    /// `from` was closed and `to` is showing again.
    Popped { from: Route, to: Route },
    /// Nothing changed (BACK on Home, or the route is already showing).
    Stayed,
}

/// A valid back stack: Home at the bottom and every screen at most once.
pub open spec fn well_formed(s: Seq<Route>) -> bool {
    &&& s.len() >= 1
    &&& s[0] == Route::Home
    &&& forall|i: int, j: int|
        0 <= i < s.len() && 0 <= j < s.len() && i != j ==> #[trigger] s[i].screen_of() != #[trigger] s[j].screen_of()
}

/// True when a route for `screen` is on `s`.
pub open spec fn has_screen(s: Seq<Route>, screen: Screen) -> bool {
    exists|i: int| 0 <= i < s.len() && #[trigger] s[i].screen_of() == screen
}

/// The position of the route for `screen` on `s` (meaningful when `has_screen`).
pub open spec fn screen_pos(s: Seq<Route>, screen: Screen) -> int {
    choose|i: int| 0 <= i < s.len() && #[trigger] s[i].screen_of() == screen
}

/// How much of `s` survives opening a route for `screen`: everything below the
/// route for the same screen (never Home itself), or all of it.
pub open spec fn kept(s: Seq<Route>, screen: Screen) -> int {
    if has_screen(s, screen) {
        if screen_pos(s, screen) < 1 { 1 } else { screen_pos(s, screen) }
    } else {
        s.len() as int
    }
}

/// The stack after opening `route`.
pub open spec fn pushed(s: Seq<Route>, route: Route) -> Seq<Route> {
    if s.last() == route {
        s
    } else if route.screen_of() == Screen::Home {
        s.take(kept(s, Screen::Home))
    } else {
        s.take(kept(s, route.screen_of())).push(route)
    }
}

/// The routes opening `route` closes, top first.
pub open spec fn closed_by(s: Seq<Route>, route: Route) -> Seq<Route> {
    if s.last() == route {
        Seq::empty()
    } else {
        s.skip(kept(s, route.screen_of())).reverse()
    }
}

/// What opening `route` reports.
pub open spec fn push_transition(s: Seq<Route>, route: Route) -> Transition {
    if s.last() == route {
        Transition::Stayed
    } else if route.screen_of() == Screen::Home {
        if closed_by(s, route).len() > 0 {
            Transition::Popped { from: closed_by(s, route)[0], to: Route::Home }
        } else {
            Transition::Stayed
        }
    } else {
        Transition::Pushed { to: route }
    }
}

/// The stack after BACK.
pub open spec fn popped(s: Seq<Route>) -> Seq<Route> {
    if s.len() < 2 { s } else { s.drop_last() }
}

/// What BACK reports.
pub open spec fn back_transition(s: Seq<Route>) -> Transition {
    if s.len() < 2 {
        Transition::Stayed
    } else {
        Transition::Popped { from: s.last(), to: s[s.len() - 2] }
    }
}

/// Opening a route always shows it: it is on top of the stack afterwards.
pub proof fn law_push_shows_route(s: Seq<Route>, route: Route)
    requires
        well_formed(s),
    ensures
        pushed(s, route).last() == route,
{
    lemma_pushed_well_formed(s, route);
    if s.last() != route && route.screen_of() == Screen::Home {
        assert(route == Route::Home);
        assert(pushed(s, route)[0] == s[0]);
        if has_screen(s, Screen::Home) {
            lemma_screen_pos(s, 0);
        }
    }
}

/// Opening the route that is already showing changes nothing, so opening a route
/// twice is the same as opening it once.
pub proof fn law_push_idempotent(s: Seq<Route>, route: Route)
    requires
        well_formed(s),
    ensures
        pushed(pushed(s, route), route) == pushed(s, route),
        closed_by(pushed(s, route), route).len() == 0,
        push_transition(pushed(s, route), route) == Transition::Stayed,
{
    law_push_shows_route(s, route);
}

/// BACK after opening a screen that was not on the stack returns to the stack as
/// it was.
pub proof fn law_back_undoes_push(s: Seq<Route>, route: Route)
    requires
        well_formed(s),
        !has_screen(s, route.screen_of()),
    ensures
        popped(pushed(s, route)) == s,
        back_transition(pushed(s, route)) == (Transition::Popped { from: route, to: s.last() }),
{
    assert(s[0].screen_of() == Screen::Home);
    assert(route.screen_of() != Screen::Home);
    assert(s.last() != route) by {
        assert(s[s.len() - 1].screen_of() == s.last().screen_of());
    }
    assert(s.take(s.len() as int) == s);
    assert(pushed(s, route).drop_last() == s);
}

/// Opening Home closes everything above it.
pub proof fn law_home_resets(s: Seq<Route>)
    requires
        well_formed(s),
    ensures
        pushed(s, Route::Home) =~= seq![Route::Home],
{
    lemma_screen_pos(s, 0);
    if s.last() == Route::Home {
        if s.len() > 1 {
            assert(s[0].screen_of() == s[s.len() - 1].screen_of());
        }
    }
}

/// BACK never removes Home: the stack always keeps at least Home.
pub proof fn law_back_keeps_home(s: Seq<Route>)
    requires
        well_formed(s),
    ensures
        well_formed(popped(s)),
        popped(s)[0] == Route::Home,
{
    if s.len() >= 2 {
        let t = s.drop_last();
        assert forall|i: int, j: int|
            0 <= i < t.len() && 0 <= j < t.len() && i != j implies #[trigger] t[i].screen_of()
            != #[trigger] t[j].screen_of() by {
            assert(s[i].screen_of() != s[j].screen_of());
        }
    }
}

/// The back stack. Home is always at the bottom and cannot be popped.
///
/// Each screen appears at most once: opening a screen that is already on the stack
/// unwinds back to it, so BACK never revisits a stale copy.
#[derive(Debug, PartialEq, Eq)]
pub struct Router {
    stack: Vec<Route>,
}

impl View for Router {
    type V = Seq<Route>;

    closed spec fn view(&self) -> Seq<Route> {
        self.stack@
    }
}

proof fn lemma_screen_pos(s: Seq<Route>, i: int)
    requires
        well_formed(s),
        0 <= i < s.len(),
    ensures
        has_screen(s, s[i].screen_of()),
        screen_pos(s, s[i].screen_of()) == i,
{
    assert(s[i].screen_of() == s[i].screen_of());
}

proof fn lemma_no_screen(s: Seq<Route>, screen: Screen)
    requires
        forall|j: int| 0 <= j < s.len() ==> #[trigger] s[j].screen_of() != screen,
    ensures
        !has_screen(s, screen),
{
}

/// Reopening a screen that is already on the stack at position `p` (above Home) unwinds to
/// just below it: every route under it stays, the route goes on top, the routes from `p` up
/// are closed, and BACK then returns to the route that was just below.
pub proof fn law_reopening_keeps_the_routes_below(s: Seq<Route>, route: Route, p: int)
    requires
        well_formed(s),
        1 <= p < s.len(),
        s[p].screen_of() == route.screen_of(),
        s.last() != route,
    ensures
        pushed(s, route) == s.take(p).push(route),
        closed_by(s, route) == s.skip(p).reverse(),
        popped(pushed(s, route)) == s.take(p),
        back_transition(pushed(s, route)) == (Transition::Popped { from: route, to: s[p - 1] }),
{
    lemma_screen_pos(s, p);
    assert(route.screen_of() != Screen::Home) by {
        assert(s[0].screen_of() == Screen::Home);
    }
    assert(pushed(s, route).drop_last() =~= s.take(p));
}

/// Opening a screen that is not on the stack puts its route on top of everything.
pub proof fn law_opening_a_new_screen_keeps_the_stack(s: Seq<Route>, route: Route)
    requires
        well_formed(s),
        forall|j: int| 0 <= j < s.len() ==> #[trigger] s[j].screen_of() != route.screen_of(),
    ensures
        pushed(s, route) == s.push(route),
        closed_by(s, route).len() == 0,
        popped(pushed(s, route)) == s,
{
    lemma_no_screen(s, route.screen_of());
    assert(s.last().screen_of() != route.screen_of());
    assert(s[0].screen_of() == Screen::Home);
    assert(s.take(s.len() as int) =~= s);
    assert(s.skip(s.len() as int).reverse() =~= Seq::<Route>::empty());
    assert(s.push(route).drop_last() =~= s);
}

/// Opening any route keeps the stack valid.
pub proof fn lemma_pushed_well_formed(s: Seq<Route>, route: Route)
    requires
        well_formed(s),
    ensures
        well_formed(pushed(s, route)),
        0 <= kept(s, route.screen_of()) <= s.len(),
        kept(s, route.screen_of()) >= 1,
        forall|j: int|
            0 <= j < kept(s, route.screen_of()) ==> #[trigger] s[j].screen_of() != route.screen_of()
                || route.screen_of() == Screen::Home,
{
    let sc = route.screen_of();
    if has_screen(s, sc) {
        let p = screen_pos(s, sc);
        lemma_screen_pos(s, p);
        assert forall|j: int| 0 <= j < kept(s, sc) implies #[trigger] s[j].screen_of() != sc
            || sc == Screen::Home by {
            if s[j].screen_of() == sc && sc != Screen::Home {
                assert(j != p);
            }
        }
    }
    if s.last() != route {
        let k = kept(s, sc);
        let t = s.take(k);
        if sc == Screen::Home {
            assert(well_formed(t));
        } else {
            let n = t.push(route);
            assert(n[0] == Route::Home);
            assert forall|i: int, j: int|
                0 <= i < n.len() && 0 <= j < n.len() && i != j implies #[trigger] n[i].screen_of()
                != #[trigger] n[j].screen_of() by {
                if i < t.len() && j < t.len() {
                    assert(s[i].screen_of() != s[j].screen_of());
                } else if i == t.len() {
                    assert(s[j].screen_of() != sc);
                } else {
                    assert(s[i].screen_of() != sc);
                }
            }
        }
    }
}

impl Router {
    #[verifier::type_invariant]
    spec fn valid(self) -> bool {
        well_formed(self.stack@)
    }

    /// A stack holding only Home.
    pub fn new() -> (r: Router)
        ensures
            r@ == seq![Route::Home],
    {
        let mut stack: Vec<Route> = Vec::new();
        stack.push(Route::Home);
        Router { stack }
    }

    /// The route on top.
    pub fn current(&self) -> (r: &Route)
        ensures
            *r == self@.last(),
            well_formed(self@),
    {
        proof {
            use_type_invariant(self);
        }
        &self.stack[self.stack.len() - 1]
    }

    /// Every route, bottom first.
    pub fn stack(&self) -> (r: &[Route])
        ensures
            r@ == self@,
    {
        self.stack.as_slice()
    }

    /// Opens `route`. When a route for the same screen is already on the stack, the
    /// stack first unwinds to just below it (never below Home). Returns the closed
    /// routes, top first.
    pub fn push(&mut self, route: Route) -> (r: (Vec<Route>, Transition))
        ensures
            final(self)@ == pushed(old(self)@, route),
            r.0@ == closed_by(old(self)@, route),
            r.1 == push_transition(old(self)@, route),
            well_formed(old(self)@),
            well_formed(final(self)@),
    {
        proof {
            use_type_invariant(&*self);
        }
        let ghost s = self.stack@;
        let n = self.stack.len();
        if self.stack[n - 1] == route {
            return (Vec::new(), Transition::Stayed);
        }
        let screen = route.screen();
        let mut pos: usize = 0;
        while pos < n && self.stack[pos].screen() != screen
            invariant
                n == s.len(),
                self.stack@ == s,
                pos <= n,
                forall|j: int| 0 <= j < pos ==> #[trigger] s[j].screen_of() != screen,
            decreases n - pos,
        {
            pos = pos + 1;
        }
        proof {
            if pos < n {
                lemma_screen_pos(s, pos as int);
            } else {
                lemma_no_screen(s, screen);
            }
            lemma_pushed_well_formed(s, route);
        }
        let keep = if pos < n {
            if pos < 1 { 1 } else { pos }
        } else {
            n
        };
        assert(keep == kept(s, screen));
        let mut rest: Vec<Route> = Vec::new();
        let mut kept_routes: Vec<Route> = Vec::new();
        let mut i: usize = 0;
        while i < keep
            invariant
                keep <= n,
                n == s.len(),
                self.stack@ == s,
                i <= keep,
                kept_routes@ == s.take(i as int),
            decreases keep - i,
        {
            kept_routes.push(self.stack[i]);
            i = i + 1;
            assert(kept_routes@ == s.take(i as int));
        }
        let mut j: usize = n;
        while j > keep
            invariant
                keep <= j <= n,
                n == s.len(),
                self.stack@ == s,
                rest@ == s.subrange(j as int, n as int).reverse(),
            decreases j,
        {
            j = j - 1;
            rest.push(self.stack[j]);
            assert(rest@ == s.subrange(j as int, n as int).reverse());
        }
        assert(s.subrange(keep as int, n as int) == s.skip(keep as int));
        if screen == Screen::Home {
            self.stack = kept_routes;
            if rest.len() > 0 {
                let from = rest[0];
                return (rest, Transition::Popped { from, to: Route::Home });
            }
            return (rest, Transition::Stayed);
        }
        kept_routes.push(route);
        self.stack = kept_routes;
        (rest, Transition::Pushed { to: route })
    }

    /// BACK: closes the top route. Home stays.
    pub fn back(&mut self) -> (t: Transition)
        ensures
            final(self)@ == popped(old(self)@),
            t == back_transition(old(self)@),
            well_formed(old(self)@),
            well_formed(final(self)@),
    {
        proof {
            use_type_invariant(&*self);
        }
        if self.stack.len() < 2 {
            return Transition::Stayed;
        }
        let ghost s = self.stack@;
        let n = self.stack.len();
        let from = self.stack[n - 1];
        let to = self.stack[n - 2];
        let mut stack: Vec<Route> = Vec::new();
        let mut i: usize = 0;
        while i < n - 1
            invariant
                n == s.len(),
                n >= 2,
                self.stack@ == s,
                i <= n - 1,
                stack@ == s.take(i as int),
            decreases n - 1 - i,
        {
            stack.push(self.stack[i]);
            i = i + 1;
            assert(stack@ == s.take(i as int));
        }
        proof {
            assert(stack@ == s.drop_last());
            assert(well_formed(stack@)) by {
                assert forall|i: int, j: int|
                    0 <= i < stack@.len() && 0 <= j < stack@.len() && i != j implies #[trigger] stack@[i].screen_of()
                    != #[trigger] stack@[j].screen_of() by {
                    assert(s[i].screen_of() != s[j].screen_of());
                }
            }
        }
        self.stack = stack;
        Transition::Popped { from, to }
    }
}

} // verus!
