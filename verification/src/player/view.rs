//! The player screen's pure parts: the overlay's button row, its focus navigation, the
//! stamp and hint texts, the key repeat count, the media keys and the UI language.
use vstd::prelude::*;

use crate::focus::ZoneId;
use crate::player::controller::{Button, Input, Key, Phase, ViewState};

verus! {

/// The overlay's BACK button.
pub const BACK: i32 = 40;
/// The seek bar.
pub const SEEK: i32 = 41;
/// The row buttons.
pub const BUTTONS: i32 = 42;
/// The tracks panel.
pub const TRACKS: i32 = 43;
/// The resume dialog.
pub const RESUME: i32 = 44;

/// The slot index of a row button (`Back` has its own zone).
pub open spec fn slot_spec(button: Button) -> Option<usize> {
    match button {
        Button::Rewind => Some(0),
        Button::PlayPause => Some(1),
        Button::Forward => Some(2),
        Button::VolumeDown => Some(3),
        Button::VolumeUp => Some(4),
        Button::Audio => Some(5),
        Button::Subtitles => Some(6),
        Button::Quality => Some(7),
        Button::Next => Some(8),
        Button::Back => None,
    }
}

/// The row buttons in slot order.
pub open spec fn slots() -> Seq<Button> {
    seq![
        Button::Rewind, Button::PlayPause, Button::Forward, Button::VolumeDown, Button::VolumeUp,
        Button::Audio, Button::Subtitles, Button::Quality, Button::Next,
    ]
}

/// The slot index of a row button (`Back` has its own zone).
pub fn button_slot(button: Button) -> (r: Option<usize>)
    ensures
        r == slot_spec(button),
        r matches Some(i) ==> i < slots().len() && slots()[i as int] == button,
{
    match button {
        Button::Rewind => Some(0),
        Button::PlayPause => Some(1),
        Button::Forward => Some(2),
        Button::VolumeDown => Some(3),
        Button::VolumeUp => Some(4),
        Button::Audio => Some(5),
        Button::Subtitles => Some(6),
        Button::Quality => Some(7),
        Button::Next => Some(8),
        Button::Back => None,
    }
}

/// The row buttons the overlay shows, left to right: the five always, then audio,
/// subtitles, quality and next when available.
pub open spec fn visible_spec(audio: bool, subtitles: bool, quality: bool, next: bool) -> Seq<Button> {
    seq![Button::Rewind, Button::PlayPause, Button::Forward, Button::VolumeDown, Button::VolumeUp]
        + (if audio { seq![Button::Audio] } else { seq![] })
        + (if subtitles { seq![Button::Subtitles] } else { seq![] })
        + (if quality { seq![Button::Quality] } else { seq![] })
        + (if next { seq![Button::Next] } else { seq![] })
}

/// The buttons `view` shows.
pub open spec fn view_buttons(view: ViewState) -> Seq<Button> {
    visible_spec(view.audio_available, view.subtitles_available, view.quality_available, view.next_available)
}

/// The row buttons the overlay shows, left to right.
pub fn visible_buttons(view: &ViewState) -> (r: Vec<Button>)
    ensures
        r@ == view_buttons(*view),
{
    let mut r: Vec<Button> = vec![Button::Rewind, Button::PlayPause, Button::Forward, Button::VolumeDown, Button::VolumeUp];
    if view.audio_available {
        r.push(Button::Audio);
    }
    if view.subtitles_available {
        r.push(Button::Subtitles);
    }
    if view.quality_available {
        r.push(Button::Quality);
    }
    if view.next_available {
        r.push(Button::Next);
    }
    assert(r@ =~= view_buttons(*view));
    r
}

/// `LOADING` / `PLAYBACK FAILED` in the middle of the screen, or nothing.
pub fn stamp_text(phase: Phase) -> (r: &'static str)
    ensures
        r@ == match phase {
            Phase::Loading => "LOADING"@,
            Phase::Failed => "PLAYBACK FAILED"@,
            _ => ""@,
        },
{
    match phase {
        Phase::Loading => "LOADING",
        Phase::Failed => "PLAYBACK FAILED",
        _ => "",
    }
}

/// The bottom-right hint: the controller's, or why playback failed when libmpv is missing.
pub fn hint_text(view: &ViewState, mpv_missing: bool) -> (r: String)
    ensures
        r@ == (if view.phase == Phase::Failed && mpv_missing {
            "LIBMPV NOT FOUND"@
        } else {
            match view.hint {
                Some(h) => h@,
                None => Seq::empty(),
            }
        }),
{
    if view.phase == Phase::Failed && mpv_missing {
        crate::text::owned("LIBMPV NOT FOUND")
    } else {
        match &view.hint {
            Some(h) => h.clone(),
            None => String::new(),
        }
    }
}

/// What a key press does on the player screen.
#[derive(Clone, Copy, Debug, PartialEq, Eq, Structural)]
pub enum PlayerKey {
    Key(Key),
    Fullscreen,
    /// Claimed but ignored (Ctrl+F, Ctrl+, would leave the player running underneath).
    Swallow,
}

/// Counts the auto-repeats of the key held down.
#[derive(Debug, Default, PartialEq, Eq)]
pub struct RepeatCounter {
    pub held: Option<String>,
    pub count: u32,
}

impl RepeatCounter {
    /// A key press (`repeat` for an auto-repeat); returns how many repeats of the same key
    /// came before it. Another key, or a fresh press, starts over.
    pub fn press(&mut self, text: &str, repeat: bool) -> (n: u32)
        ensures
            ({
                let same = repeat && old(self).held is Some && old(self).held.unwrap()@ == text@;
                &&& n == (if same {
                    if old(self).count == u32::MAX { u32::MAX } else { (old(self).count + 1) as u32 }
                } else {
                    0
                })
                &&& final(self).count == n
                &&& final(self).held is Some && final(self).held.unwrap()@ == (if same { old(self).held.unwrap()@ } else { text@ })
            }),
    {
        let t = crate::text::owned(text);
        let same = repeat && match &self.held {
            Some(h) => *h == t,
            None => false,
        };
        if same {
            self.count = self.count.saturating_add(1);
        } else {
            self.held = Some(t);
            self.count = 0;
        }
        self.count
    }

    /// The key was released.
    pub fn release(&mut self)
        ensures
            final(self).held is None,
            final(self).count == 0,
    {
        self.held = None;
        self.count = 0;
    }
}

/// What the overlay focus is on.
#[derive(Clone, Copy, Debug, PartialEq, Eq, Structural)]
pub enum Target {
    Back,
    Seek,
    Button(Button),
    Track(usize),
}

/// The position of `b` in `row`, or -1.
pub open spec fn index_of(row: Seq<Button>, b: Button) -> int
    decreases row.len(),
{
    if row.len() == 0 {
        -1
    } else if index_of(row.drop_last(), b) >= 0 {
        index_of(row.drop_last(), b)
    } else if row.last() == b {
        row.len() - 1
    } else {
        -1
    }
}

proof fn lemma_index_of(row: Seq<Button>, b: Button)
    ensures
        -1 <= index_of(row, b) < row.len(),
        index_of(row, b) >= 0 ==> row[index_of(row, b)] == b,
        index_of(row, b) < 0 ==> !row.contains(b),
    decreases row.len(),
{
    if row.len() > 0 {
        lemma_index_of(row.drop_last(), b);
        if index_of(row, b) < 0 {
            assert forall|k: int| 0 <= k < row.len() implies row[k] != b by {
                if k < row.len() - 1 {
                    assert(row.drop_last()[k] == row[k]);
                }
            }
        }
    }
}

/// The last index of a list of `len` (0 when empty).
pub open spec fn last_index(len: nat) -> nat {
    if len > 0 { (len - 1) as nat } else { 0 }
}

/// Keeps the focus on something visible: the open panel's rows, or a shown button.
pub open spec fn normalize_spec(t: Target, view: ViewState) -> Target {
    match view.tracks {
        Some(p) => match t {
            Target::Track(i) => Target::Track(if i <= last_index(p.labels@.len()) { i } else { last_index(p.labels@.len()) as usize }),
            _ => Target::Track(p.selected),
        },
        None => match t {
            Target::Track(_) => Target::Button(if view.audio_available { Button::Audio } else { Button::PlayPause }),
            Target::Button(b) => if view_buttons(view).contains(b) { t } else { Target::Button(Button::PlayPause) },
            _ => t,
        },
    }
}

/// The target is on something `view` shows: a row of the open panel, else BACK, the seek
/// bar or a shown button.
pub open spec fn on_shown(t: Target, view: ViewState) -> bool {
    match view.tracks {
        Some(p) => t matches Target::Track(i) && i <= last_index(p.labels@.len()),
        None => match t {
            Target::Track(_) => false,
            Target::Button(b) => view_buttons(view).contains(b),
            _ => true,
        },
    }
}

/// No button shows twice in the row.
proof fn lemma_buttons_distinct(view: ViewState)
    ensures
        forall|i: int, j: int| 0 <= i < j < view_buttons(view).len() ==> view_buttons(view)[i] != view_buttons(view)[j],
{
    let a = view.audio_available;
    let s = view.subtitles_available;
    let q = view.quality_available;
    let n = view.next_available;
    let base = seq![Button::Rewind, Button::PlayPause, Button::Forward, Button::VolumeDown, Button::VolumeUp];
    let sa: Seq<Button> = if a { seq![Button::Audio] } else { seq![] };
    let ss: Seq<Button> = if s { seq![Button::Subtitles] } else { seq![] };
    let sq: Seq<Button> = if q { seq![Button::Quality] } else { seq![] };
    let sn: Seq<Button> = if n { seq![Button::Next] } else { seq![] };
    let row = view_buttons(view);
    assert(row == base + sa + ss + sq + sn);
    // Each button's rank: the row lists buttons by strictly increasing rank.
    assert forall|i: int, j: int| 0 <= i < j < row.len() implies rank(row[i]) < rank(row[j]) by {
        let k1 = 5 + sa.len();
        let k2 = k1 + ss.len();
        let k3 = k2 + sq.len();
        assert forall|x: int| 0 <= x < row.len() implies rank(#[trigger] row[x]) == if x < 5 { x } else if x < k1 { 5 } else if x < k2 { 6 } else if x < k3 { 7 } else { 8 } by {
            if x < 5 {
                assert(row[x] == base[x]);
            } else if x < k1 {
                assert(row[x] == sa[x - 5]);
            } else if x < k2 {
                assert(row[x] == ss[x - k1]);
            } else if x < k3 {
                assert(row[x] == sq[x - k2]);
            } else {
                assert(row[x] == sn[x - k3]);
            }
        }
    }
}

/// A button's place in the order the row lists them.
spec fn rank(b: Button) -> int {
    match b {
        Button::Rewind => 0,
        Button::PlayPause => 1,
        Button::Forward => 2,
        Button::VolumeDown => 3,
        Button::VolumeUp => 4,
        Button::Audio => 5,
        Button::Subtitles => 6,
        Button::Quality => 7,
        Button::Next => 8,
        _ => 9,
    }
}

/// In a row where nothing repeats, a button is found at its own position.
proof fn lemma_index_of_distinct(row: Seq<Button>, i: int)
    requires
        0 <= i < row.len(),
        forall|a: int, b: int| 0 <= a < b < row.len() ==> row[a] != row[b],
    ensures
        index_of(row, row[i]) == i,
    decreases row.len(),
{
    let r2 = row.drop_last();
    lemma_index_of(r2, row[i]);
    if i == row.len() - 1 {
        if index_of(r2, row[i]) >= 0 {
            let k = index_of(r2, row[i]);
            assert(row[k] == r2[k]);
        }
    } else {
        assert(r2[i] == row[i]);
        lemma_index_of_distinct(r2, i);
    }
}

/// The focus after `key` on the overlay from target `t` (the tracks panel closed).
pub open spec fn after_key(t: Target, key: Key, view: ViewState) -> Target {
    nav_key_spec(normalize_spec(t, view), key, 0, view).0
}

/// LEFT and RIGHT walk the button row one button at a time, stopping at either end, so LEFT
/// undoes RIGHT and RIGHT undoes LEFT on an inner button.
pub proof fn law_left_right_walk_the_button_row(view: ViewState, i: int)
    requires
        view.tracks is None,
        0 <= i < view_buttons(view).len(),
    ensures
        ({
            let row = view_buttons(view);
            let t = Target::Button(row[i]);
            &&& i > 0 ==> after_key(t, Key::Left, view) == Target::Button(row[i - 1])
            &&& i == 0 ==> after_key(t, Key::Left, view) == t
            &&& i + 1 < row.len() ==> after_key(t, Key::Right, view) == Target::Button(row[i + 1])
            &&& i + 1 == row.len() ==> after_key(t, Key::Right, view) == t
            &&& i > 0 ==> after_key(after_key(t, Key::Left, view), Key::Right, view) == t
            &&& i + 1 < row.len() ==> after_key(after_key(t, Key::Right, view), Key::Left, view) == t
        }),
{
    let row = view_buttons(view);
    lemma_buttons_distinct(view);
    assert forall|k: int| 0 <= k < row.len() implies index_of(row, #[trigger] row[k]) == k && row.contains(row[k]) by {
        lemma_index_of_distinct(row, k);
    }
}

/// The overlay focus always stays on something shown: normalizing puts it there, and every
/// key moves it to something shown; a held CENTER does not repeat a pick or a button.
pub proof fn law_overlay_focus_stays_on_shown(t: Target, key: Key, repeat: u32, view: ViewState)
    requires
        view.tracks matches Some(p) ==> p.selected <= last_index(p.labels@.len()),
    ensures
        on_shown(normalize_spec(t, view), view),
        on_shown(nav_key_spec(normalize_spec(t, view), key, repeat, view).0, view),
        repeat > 0 ==> !(nav_key_spec(normalize_spec(t, view), key, repeat, view).1 matches Some(NavInput::PickTrack(_))),
        repeat > 0 ==> !(nav_key_spec(normalize_spec(t, view), key, repeat, view).1 matches Some(NavInput::Button(_))),
{
    let n = normalize_spec(t, view);
    let row = view_buttons(view);
    assert(row[1] == Button::PlayPause);
    if view.audio_available {
        assert(row[5] == Button::Audio);
    }
    if let Target::Button(b) = n {
        lemma_index_of(row, b);
        let i = index_of(row, b);
        if i >= 0 {
            if i > 0 {
                assert(row.contains(row[i - 1]));
            }
            if i + 1 <= row.len() - 1 {
                assert(row.contains(row[i + 1]));
            }
            assert(row.contains(row[i]));
            assert(row.contains(row[row.len() - 1]));
            assert(row.contains(row[0]));
        }
    }
}

/// What an input a key gives, as a plain value.
#[derive(Clone, Copy, Debug, PartialEq, Eq, Structural)]
pub enum NavInput {
    PickTrack(usize),
    Button(Button),
    ScrubBy { forward: bool, repeat: u32 },
}

/// A key while the overlay is up, from the normalized target `t`: the next target and the
/// input to send.
pub open spec fn nav_key_spec(t: Target, key: Key, repeat: u32, view: ViewState) -> (Target, Option<NavInput>) {
    match t {
        Target::Track(i) => {
            let len = match view.tracks {
                Some(p) => p.labels@.len(),
                None => 0,
            };
            match key {
                Key::Up => (Target::Track(if i > 0 { (i - 1) as usize } else { 0 }), None),
                Key::Down => (Target::Track(if i + 1 <= last_index(len) { (i + 1) as usize } else { last_index(len) as usize }), None),
                Key::Center => if repeat == 0 { (t, Some(NavInput::PickTrack(i))) } else { (t, None) },
                _ => (t, None),
            }
        },
        Target::Back => match key {
            Key::Down => (Target::Seek, None),
            Key::Center => if repeat == 0 { (t, Some(NavInput::Button(Button::Back))) } else { (t, None) },
            _ => (t, None),
        },
        Target::Seek => match key {
            Key::Up => (Target::Back, None),
            Key::Down => (Target::Button(Button::PlayPause), None),
            Key::Left => (t, Some(NavInput::ScrubBy { forward: false, repeat })),
            Key::Right => (t, Some(NavInput::ScrubBy { forward: true, repeat })),
            Key::Center => if repeat == 0 { (t, Some(NavInput::Button(Button::PlayPause))) } else { (t, None) },
            _ => (t, None),
        },
        Target::Button(b) => match key {
            Key::Up => (Target::Seek, None),
            Key::Left | Key::Right => {
                let row = view_buttons(view);
                let i = index_of(row, b);
                if i >= 0 {
                    let next = if key == Key::Left {
                        if i > 0 { i - 1 } else { 0 }
                    } else {
                        if i + 1 <= row.len() - 1 { i + 1 } else { row.len() - 1 }
                    };
                    (Target::Button(row[next]), None)
                } else {
                    (t, None)
                }
            },
            Key::Center => if repeat == 0 { (t, Some(NavInput::Button(b))) } else { (t, None) },
            _ => (t, None),
        },
    }
}

/// The controller input of a navigation input.
pub open spec fn input_of(i: NavInput) -> Input {
    match i {
        NavInput::PickTrack(k) => Input::PickTrack(k),
        NavInput::Button(b) => Input::Button(b),
        NavInput::ScrubBy { forward, repeat } => Input::ScrubBy { forward, repeat },
    }
}

/// Focus navigation inside the overlay and the tracks panel (the controller hands keys over
/// while the overlay is up).
#[derive(Clone, Copy, Debug, PartialEq, Eq, Structural)]
pub struct OverlayNav {
    pub target: Target,
}

impl Default for OverlayNav {
    fn default() -> (n: OverlayNav)
        ensures
            n.target == Target::Button(Button::PlayPause),
    {
        OverlayNav { target: Target::Button(Button::PlayPause) }
    }
}

fn index_in(row: &Vec<Button>, b: Button) -> (r: Option<usize>)
    ensures
        match r {
            Some(i) => index_of(row@, b) == i,
            None => index_of(row@, b) < 0,
        },
{
    proof {
        lemma_index_of(row@, b);
    }
    let mut i: usize = 0;
    while i < row.len() && row[i] != b
        invariant
            i <= row@.len(),
            forall|k: int| 0 <= k < i ==> row@[k] != b,
        decreases row@.len() - i,
    {
        i = i + 1;
    }
    proof {
        lemma_first_index(row@, b, i as int);
    }
    if i < row.len() {
        Some(i)
    } else {
        None
    }
}

proof fn lemma_first_index(row: Seq<Button>, b: Button, i: int)
    requires
        0 <= i <= row.len(),
        forall|k: int| 0 <= k < i ==> row[k] != b,
        i < row.len() ==> row[i] == b,
    ensures
        i < row.len() ==> index_of(row, b) == i,
        i == row.len() ==> index_of(row, b) < 0,
    decreases row.len(),
{
    if row.len() > 0 {
        if i < row.len() - 1 {
            lemma_first_index(row.drop_last(), b, i);
        } else if i == row.len() - 1 {
            lemma_first_index(row.drop_last(), b, i);
        } else {
            lemma_first_index(row.drop_last(), b, i - 1);
        }
    }
}

impl OverlayNav {
    pub fn target(&self) -> (t: Target)
        ensures
            t == self.target,
    {
        self.target
    }

    /// Back to play/pause (the overlay just appeared).
    pub fn reset(&mut self)
        ensures
            final(self).target == Target::Button(Button::PlayPause),
    {
        self.target = Target::Button(Button::PlayPause);
    }

    /// Points at something the pointer hovered or clicked.
    pub fn set(&mut self, target: Target)
        ensures
            final(self).target == target,
    {
        self.target = target;
    }

    /// Keeps the focus on something visible: the open panel's rows, or a shown button.
    pub fn normalize(&mut self, view: &ViewState)
        ensures
            final(self).target == normalize_spec(old(self).target, *view),
    {
        match &view.tracks {
            Some(panel) => {
                let last: usize = if panel.labels.len() > 0 { panel.labels.len() - 1 } else { 0 };
                match self.target {
                    Target::Track(i) => {
                        self.target = Target::Track(if i <= last { i } else { last });
                    },
                    _ => {
                        self.target = Target::Track(panel.selected);
                    },
                }
            },
            None => match self.target {
                Target::Track(_) => {
                    self.target = Target::Button(if view.audio_available { Button::Audio } else { Button::PlayPause });
                },
                Target::Button(b) => {
                    let row = visible_buttons(view);
                    let at = index_in(&row, b);
                    proof {
                        lemma_index_of(row@, b);
                    }
                    if at.is_none() {
                        self.target = Target::Button(Button::PlayPause);
                    }
                },
                _ => {},
            },
        }
    }

    /// A key while the overlay is up; the input to send, if any.
    pub fn key(&mut self, key: Key, repeat: u32, view: &ViewState) -> (r: Option<Input>)
        ensures
            ({
                let t = normalize_spec(old(self).target, *view);
                let (next, input) = nav_key_spec(t, key, repeat, *view);
                &&& final(self).target == next
                &&& r == match input {
                    Some(i) => Some(input_of(i)),
                    None => None::<Input>,
                }
            }),
    {
        self.normalize(view);
        match self.target {
            Target::Track(i) => {
                let len: usize = match &view.tracks {
                    Some(p) => p.labels.len(),
                    None => 0,
                };
                let last: usize = if len > 0 { len - 1 } else { 0 };
                match key {
                    Key::Up => {
                        self.target = Target::Track(if i > 0 { i - 1 } else { 0 });
                    },
                    Key::Down => {
                        self.target = Target::Track(if i < last { i + 1 } else { last });
                    },
                    Key::Center => {
                        if repeat == 0 {
                            return Some(Input::PickTrack(i));
                        }
                    },
                    _ => {},
                }
                None
            },
            Target::Back => match key {
                Key::Down => {
                    self.target = Target::Seek;
                    None
                },
                Key::Center => if repeat == 0 { Some(Input::Button(Button::Back)) } else { None },
                _ => None,
            },
            Target::Seek => match key {
                Key::Up => {
                    self.target = Target::Back;
                    None
                },
                Key::Down => {
                    self.target = Target::Button(Button::PlayPause);
                    None
                },
                Key::Left => Some(Input::ScrubBy { forward: false, repeat }),
                Key::Right => Some(Input::ScrubBy { forward: true, repeat }),
                Key::Center => if repeat == 0 { Some(Input::Button(Button::PlayPause)) } else { None },
                _ => None,
            },
            Target::Button(b) => match key {
                Key::Up => {
                    self.target = Target::Seek;
                    None
                },
                Key::Left | Key::Right => {
                    let row = visible_buttons(view);
                    proof {
                        lemma_index_of(row@, b);
                    }
                    match index_in(&row, b) {
                        Some(i) => {
                            let next = if key == Key::Left {
                                if i > 0 { i - 1 } else { 0 }
                            } else {
                                if i + 1 <= row.len() - 1 { i + 1 } else { row.len() - 1 }
                            };
                            self.target = Target::Button(row[next]);
                        },
                        None => {},
                    }
                    None
                },
                Key::Center => if repeat == 0 { Some(Input::Button(b)) } else { None },
                _ => None,
            },
        }
    }

    /// The (zone, index) to draw the ring on.
    pub fn slint_focus(&self) -> (r: (i32, i32))
        ensures
            r == match self.target {
                Target::Back => (BACK, 0i32),
                Target::Seek => (SEEK, 0i32),
                Target::Button(b) => (BUTTONS, match slot_spec(b) {
                    Some(i) => i as i32,
                    None => 1i32,
                }),
                Target::Track(i) => (TRACKS, if i <= i32::MAX { i as i32 } else { 0i32 }),
            },
    {
        match self.target {
            Target::Back => (BACK, 0),
            Target::Seek => (SEEK, 0),
            Target::Button(b) => (BUTTONS, match button_slot(b) {
                Some(i) => i as i32,
                None => 1,
            }),
            Target::Track(i) => (TRACKS, if i <= i32::MAX as usize { i as i32 } else { 0 }),
        }
    }
}

/// The target for a pointer on (zone, index).
pub fn pointer_target(zone: ZoneId, index: usize) -> (r: Option<Target>)
    ensures
        r == (if zone.0 == BACK {
            Some(Target::Back)
        } else if zone.0 == SEEK {
            Some(Target::Seek)
        } else if zone.0 == BUTTONS {
            if index < slots().len() { Some(Target::Button(slots()[index as int])) } else { None }
        } else if zone.0 == TRACKS {
            Some(Target::Track(index))
        } else {
            None
        }),
{
    if zone.0 == BACK {
        Some(Target::Back)
    } else if zone.0 == SEEK {
        Some(Target::Seek)
    } else if zone.0 == BUTTONS {
        let s = vec![
            Button::Rewind, Button::PlayPause, Button::Forward, Button::VolumeDown, Button::VolumeUp,
            Button::Audio, Button::Subtitles, Button::Quality, Button::Next,
        ];
        assert(s@ =~= slots());
        if index < s.len() { Some(Target::Button(s[index])) } else { None }
    } else if zone.0 == TRACKS {
        Some(Target::Track(index))
    } else {
        None
    }
}

/// A system media-control button.
#[derive(Clone, Copy, Debug, PartialEq, Eq, Structural)]
pub enum MediaKey {
    PlayPause,
    Play,
    Pause,
    Next,
    Previous,
    Stop,
}

/// Media-control buttons: Play and Pause stay separate (the system sends the one the
/// status implies); Previous and Stop do nothing.
pub fn media_key(key: MediaKey) -> (r: Option<Key>)
    ensures
        r == match key {
            MediaKey::PlayPause => Some(Key::PlayPause),
            MediaKey::Play => Some(Key::Play),
            MediaKey::Pause => Some(Key::Pause),
            MediaKey::Next => Some(Key::Next),
            MediaKey::Previous | MediaKey::Stop => None::<Key>,
        },
{
    match key {
        MediaKey::PlayPause => Some(Key::PlayPause),
        MediaKey::Play => Some(Key::Play),
        MediaKey::Pause => Some(Key::Pause),
        MediaKey::Next => Some(Key::Next),
        MediaKey::Previous | MediaKey::Stop => None,
    }
}

/// Whether `c` is an ASCII letter.
pub open spec fn ascii_letter(c: char) -> bool {
    ('a' <= c && c <= 'z') || ('A' <= c && c <= 'Z')
}

/// The leading ASCII letters of `s`.
pub open spec fn leading_letters(s: Seq<char>) -> Seq<char>
    decreases s.len(),
{
    if s.len() > 0 && ascii_letter(s[0]) {
        seq![s[0]] + leading_letters(s.drop_first())
    } else {
        Seq::empty()
    }
}

/// `c` in ASCII lower case.
pub open spec fn ascii_lower(c: char) -> char {
    if 'A' <= c && c <= 'Z' { ((c as u32) + 32) as char } else { c }
}

/// The UI language from locale values (`LC_ALL`, `LC_MESSAGES`, `LANG`, those that are set,
/// in that order): the first whose leading letters are two, lowercased; else `en`.
pub open spec fn ui_language_spec(values: Seq<Seq<char>>) -> Seq<char>
    decreases values.len(),
{
    if values.len() == 0 {
        "en"@
    } else if leading_letters(values[0]).len() == 2 {
        leading_letters(values[0]).map_values(|c: char| ascii_lower(c))
    } else {
        ui_language_spec(values.drop_first())
    }
}

/// The leading letters of `s`, lowercased, in code.
fn leading_lower(s: &str) -> (r: Vec<char>)
    ensures
        r@ == leading_letters(s@).map_values(|c: char| ascii_lower(c)),
{
    let cs = crate::text::chars_of(s);
    let mut out: Vec<char> = Vec::new();
    let mut i: usize = 0;
    assert(cs@.skip(0) =~= cs@);
    while i < cs.len() && (('a' <= cs[i] && cs[i] <= 'z') || ('A' <= cs[i] && cs[i] <= 'Z'))
        invariant
            i <= cs@.len(),
            leading_letters(cs@) == cs@.take(i as int) + leading_letters(cs@.skip(i as int)),
            forall|k: int| 0 <= k < i ==> ascii_letter(#[trigger] cs@[k]),
            out@ == cs@.take(i as int).map_values(|c: char| ascii_lower(c)),
        decreases cs@.len() - i,
    {
        let c = cs[i];
        let lc = if 'A' <= c && c <= 'Z' { ((c as u32) + 32) as u8 as char } else { c };
        proof {
            assert(cs@.skip(i as int).drop_first() =~= cs@.skip(i + 1));
            assert(cs@.take(i + 1) =~= cs@.take(i as int) + seq![c]);
            if 'A' <= c && c <= 'Z' {
                assert(((c as u32) + 32) as u8 as char == ((c as u32) + 32) as char);
            }
        }
        out.push(lc);
        i = i + 1;
        proof {
            assert(out@ =~= cs@.take(i as int).map_values(|c: char| ascii_lower(c)));
        }
    }
    proof {
        if i < cs@.len() {
            assert(leading_letters(cs@.skip(i as int)) =~= Seq::<char>::empty());
        } else {
            assert(cs@.skip(i as int) =~= Seq::<char>::empty());
        }
        assert(leading_letters(cs@) =~= cs@.take(i as int));
    }
    out
}

/// The UI language from the locale values that are set (`LC_ALL`, `LC_MESSAGES`, `LANG`,
/// in that order): the first that starts with exactly two letters gives them, lowercased;
/// else `en`.
pub fn ui_language(values: &Vec<String>) -> (r: String)
    ensures
        r@ == ui_language_spec(values@.map_values(|v: String| v@)),
{
    let ghost vs = values@.map_values(|v: String| v@);
    let mut i: usize = 0;
    assert(vs.skip(0) =~= vs);
    while i < values.len()
        invariant
            vs == values@.map_values(|v: String| v@),
            i <= values@.len(),
            ui_language_spec(vs) == ui_language_spec(vs.skip(i as int)),
        decreases values@.len() - i,
    {
        let code = leading_lower(values[i].as_str());
        proof {
            assert(vs.skip(i as int)[0] == values@[i as int]@);
            assert(vs.skip(i as int).drop_first() =~= vs.skip(i + 1));
        }
        if code.len() == 2 {
            return crate::text::string_of(&code);
        }
        i = i + 1;
    }
    assert(vs.skip(i as int) =~= Seq::<Seq<char>>::empty());
    crate::text::owned("en")
}

} // verus!
