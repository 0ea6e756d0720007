//! The Login screen: TDLib's auth state machine drawn as one step at a time.
//!
//! QR by default: once TDLib waits for a phone number the screen asks for a QR link. USE
//! PHONE NUMBER switches to phone, code and two-step password; TDLib cannot take a phone
//! number while a QR link is pending, so switching from the QR restarts the client first.
use vstd::prelude::*;

use crate::focus::{Layout, Zone, ZoneId};
use crate::model::{AuthState, TelegramStatus};
use crate::text::{push_str, string_of, to_upper, trim_str, trimmed, upper};
use vstd::view::View as _;

verus! {

/// The text field (phone, code or password).
pub const FIELD: i32 = 70;
/// The buttons under it.
pub const ACTIONS: i32 = 71;

pub const EYEBROW: &'static str = "TELEGRAM";
pub const TITLE: &'static str = "Connect your library";
pub const SCAN: &'static str = "SCAN WITH THE TELEGRAM APP · SETTINGS · DEVICES · LINK DESKTOP DEVICE";
pub const CONNECTING: &'static str = "CONNECTING";
pub const PHONE: &'static str = "PHONE NUMBER WITH COUNTRY CODE";
pub const CODE: &'static str = "CODE FROM THE TELEGRAM APP";
pub const PASSWORD: &'static str = "TWO-STEP PASSWORD";
pub const TDLIB_NOT_FOUND: &'static str = "TDLIB NOT FOUND";
pub const SETUP_TITLE: &'static str = "Add your Telegram API id and hash in Settings";
pub const SETUP_BODY: &'static str = "Create them at my.telegram.org/apps. The TMDB key goes there too.";
pub const UNAVAILABLE_BODY: &'static str = "Flox could not load TDLib. Put tdjson next to flox.exe, or reinstall Flox.";

/// QR or phone number.
#[derive(Clone, Copy, Debug, PartialEq, Eq, Structural)]
pub enum Mode {
    Qr,
    Phone,
}

impl Default for Mode {
    fn default() -> (m: Mode)
        ensures
            m == Mode::Qr,
    {
        Mode::Qr
    }
}

/// What the screen shows.
#[derive(Debug, PartialEq, Eq)]
pub enum Step {
    /// API id or hash missing: the setup hint and OPEN SETTINGS.
    Setup,
    /// tdjson is missing.
    Unavailable,
    Connecting,
    Qr { link: String },
    Phone,
    Code,
    Password { hint: String },
    Failed { message: String },
    /// Signed in: the screen closes.
    Done,
}

/// The step for a Telegram status in `mode`.
pub open spec fn step_spec(status: TelegramStatus, mode: Mode) -> Step {
    match status {
        TelegramStatus::NotConfigured => Step::Setup,
        TelegramStatus::Unavailable => Step::Unavailable,
        TelegramStatus::Auth(state) => match state {
            AuthState::Idle | AuthState::Connecting | AuthState::LoggingOut => Step::Connecting,
            AuthState::WaitPhone => if mode == Mode::Qr { Step::Connecting } else { Step::Phone },
            AuthState::WaitQr { link } => if mode == Mode::Qr { Step::Qr { link } } else { Step::Connecting },
            AuthState::WaitCode => Step::Code,
            AuthState::WaitPassword { hint } => Step::Password { hint },
            AuthState::Ready { .. } => Step::Done,
            AuthState::Failed(message) => Step::Failed { message: string_spec(upper(message@)) },
        },
    }
}

/// A string holding `s` (the one string whose view is `s`).
pub open spec fn string_spec(s: Seq<char>) -> String {
    choose|x: String| x@ == s
}

/// The step for a Telegram status in `mode`: QR mode asks for a link as soon as TDLib waits
/// for a phone number, and a pending QR link in phone mode waits for the restart.
pub fn step(status: &TelegramStatus, mode: Mode) -> (s: Step)
    ensures
        s matches Step::Failed { message } ==> (*status matches TelegramStatus::Auth(AuthState::Failed(m)) && message@ == upper(m@)),
        !(s is Failed) ==> s == step_spec(*status, mode),
        (s is Failed) <==> (step_spec(*status, mode) is Failed),
{
    match status {
        TelegramStatus::NotConfigured => Step::Setup,
        TelegramStatus::Unavailable => Step::Unavailable,
        TelegramStatus::Auth(state) => match state {
            AuthState::Idle | AuthState::Connecting | AuthState::LoggingOut => Step::Connecting,
            AuthState::WaitPhone => if mode == Mode::Qr { Step::Connecting } else { Step::Phone },
            AuthState::WaitQr { link } => if mode == Mode::Qr { Step::Qr { link: link.clone() } } else { Step::Connecting },
            AuthState::WaitCode => Step::Code,
            AuthState::WaitPassword { hint } => Step::Password { hint: hint.clone() },
            AuthState::Ready { .. } => Step::Done,
            AuthState::Failed(message) => Step::Failed { message: to_upper(message.as_str()) },
        },
    }
}

/// A request the screen makes on its own.
#[derive(Clone, Copy, Debug, PartialEq, Eq, Structural)]
pub enum Effect {
    /// `requestQrCodeAuthentication`.
    RequestQr,
    /// Close TDLib and start a fresh instance (leaves a pending QR link).
    Restart,
}

/// The kind of an auth state: a refreshed QR link is the same kind as the old one.
pub open spec fn same_kind(a: AuthState, b: AuthState) -> bool {
    match (a, b) {
        (AuthState::Idle, AuthState::Idle) => true,
        (AuthState::Connecting, AuthState::Connecting) => true,
        (AuthState::WaitPhone, AuthState::WaitPhone) => true,
        (AuthState::WaitQr { .. }, AuthState::WaitQr { .. }) => true,
        (AuthState::WaitCode, AuthState::WaitCode) => true,
        (AuthState::WaitPassword { .. }, AuthState::WaitPassword { .. }) => true,
        (AuthState::Ready { .. }, AuthState::Ready { .. }) => true,
        (AuthState::LoggingOut, AuthState::LoggingOut) => true,
        (AuthState::Failed(_), AuthState::Failed(_)) => true,
        _ => false,
    }
}

fn kind(s: &AuthState) -> (k: u8)
    ensures
        forall|t: AuthState| same_kind(*s, t) <==> kind_spec(t) == k,
        k == kind_spec(*s),
{
    match s {
        AuthState::Idle => 0,
        AuthState::Connecting => 1,
        AuthState::WaitPhone => 2,
        AuthState::WaitQr { .. } => 3,
        AuthState::WaitCode => 4,
        AuthState::WaitPassword { .. } => 5,
        AuthState::Ready { .. } => 6,
        AuthState::LoggingOut => 7,
        AuthState::Failed(_) => 8,
    }
}

/// A number for each kind of auth state.
pub open spec fn kind_spec(s: AuthState) -> u8 {
    match s {
        AuthState::Idle => 0,
        AuthState::Connecting => 1,
        AuthState::WaitPhone => 2,
        AuthState::WaitQr { .. } => 3,
        AuthState::WaitCode => 4,
        AuthState::WaitPassword { .. } => 5,
        AuthState::Ready { .. } => 6,
        AuthState::LoggingOut => 7,
        AuthState::Failed(_) => 8,
    }
}

/// The mode and the requests already made for the current kind of auth state, so each
/// request is sent once per state.
#[derive(Debug, PartialEq, Eq)]
pub struct Flow {
    pub mode: Mode,
    pub last: Option<AuthState>,
    pub requested: bool,
}

/// The request a state calls for in `mode`: a QR link while TDLib waits for a phone number
/// in QR mode, a restart while a QR link is pending in phone mode.
pub open spec fn wanted(state: AuthState, mode: Mode) -> Option<Effect> {
    match state {
        AuthState::WaitPhone => if mode == Mode::Qr { Some(Effect::RequestQr) } else { None },
        AuthState::WaitQr { .. } => if mode == Mode::Phone { Some(Effect::Restart) } else { None },
        _ => None,
    }
}

impl Flow {
    /// QR mode with nothing requested.
    pub fn new() -> (f: Flow)
        ensures
            f.mode == Mode::Qr,
            f.last is None,
            !f.requested,
    {
        Flow { mode: Mode::Qr, last: None, requested: false }
    }

    pub fn mode(&self) -> (m: Mode)
        ensures
            m == self.mode,
    {
        self.mode
    }

    fn effect(&mut self, state: &AuthState) -> (e: Option<Effect>)
        ensures
            final(self).mode == old(self).mode,
            final(self).last == old(self).last,
            e == (if old(self).requested { None } else { wanted(*state, old(self).mode) }),
            final(self).requested == (old(self).requested || e is Some),
    {
        if self.requested {
            return None;
        }
        let e = match state {
            AuthState::WaitPhone => if self.mode == Mode::Qr { Some(Effect::RequestQr) } else { None },
            AuthState::WaitQr { .. } => if self.mode == Mode::Phone { Some(Effect::Restart) } else { None },
            _ => None,
        };
        if e.is_some() {
            self.requested = true;
        }
        e
    }

    /// TDLib reported `state` (or the screen opened on it). A new kind of state allows its
    /// request again; the same kind (a refreshed QR link) does not.
    pub fn on_state(&mut self, state: &AuthState) -> (e: Option<Effect>)
        ensures
            final(self).mode == old(self).mode,
            final(self).last == Some(*state),
            ({
                let fresh = !(old(self).last is Some && same_kind(old(self).last.unwrap(), *state));
                let asked = old(self).requested && !fresh;
                &&& e == (if asked { None } else { wanted(*state, old(self).mode) })
                &&& final(self).requested == (asked || e is Some)
            }),
    {
        let same = match &self.last {
            Some(l) => kind(l) == kind(state),
            None => false,
        };
        self.last = Some(state.duplicate());
        if !same {
            self.requested = false;
        }
        self.effect(state)
    }

    /// USE PHONE NUMBER / USE QR CODE. Switching back to QR while TDLib waits for a code
    /// requests a link at once.
    pub fn switch(&mut self, mode: Mode, state: &AuthState) -> (e: Option<Effect>)
        ensures
            old(self).mode == mode ==> e is None && *final(self) == *old(self),
            old(self).mode != mode ==> {
                &&& final(self).mode == mode
                &&& final(self).last == Some(*state)
                &&& if mode == Mode::Qr && *state == AuthState::WaitCode {
                    e == Some(Effect::RequestQr) && final(self).requested
                } else {
                    e == wanted(*state, mode) && final(self).requested == (e is Some)
                }
            },
    {
        if self.mode == mode {
            return None;
        }
        self.mode = mode;
        self.last = Some(state.duplicate());
        self.requested = false;
        let code = match state {
            AuthState::WaitCode => true,
            _ => false,
        };
        if mode == Mode::Qr && code {
            self.requested = true;
            return Some(Effect::RequestQr);
        }
        self.effect(state)
    }
}

/// Each request is sent once per kind of state: after a request, reports of the same kind
/// of state ask for nothing more.
pub proof fn law_one_request_per_state(f: Flow, state: AuthState, again: AuthState)
    requires
        f.last == Some(state),
        f.requested,
        same_kind(state, again),
    ensures
        ({
            let fresh = !(f.last is Some && same_kind(f.last.unwrap(), again));
            let asked = f.requested && !fresh;
            asked
        }),
{
}

/// A button under the field.
#[derive(Clone, Copy, Debug, PartialEq, Eq, Structural)]
pub enum Button {
    OpenSettings,
    UsePhone,
    UseQr,
    SendCode,
    Continue,
    TryAgain,
}

impl Button {
    pub fn label(self) -> (r: &'static str)
        ensures
            r@ == match self {
                Button::OpenSettings => "OPEN SETTINGS"@,
                Button::UsePhone => "USE PHONE NUMBER"@,
                Button::UseQr => "USE QR CODE"@,
                Button::SendCode => "SEND CODE"@,
                Button::Continue => "CONTINUE"@,
                Button::TryAgain => "TRY AGAIN"@,
            },
    {
        match self {
            Button::OpenSettings => "OPEN SETTINGS",
            Button::UsePhone => "USE PHONE NUMBER",
            Button::UseQr => "USE QR CODE",
            Button::SendCode => "SEND CODE",
            Button::Continue => "CONTINUE",
            Button::TryAgain => "TRY AGAIN",
        }
    }

    /// Filled (primary) or ghost.
    pub fn filled(self) -> (r: bool)
        ensures
            r == !(self == Button::UsePhone || self == Button::UseQr),
    {
        !(self == Button::UsePhone || self == Button::UseQr)
    }
}

/// What a step draws.
#[derive(Debug, PartialEq, Eq)]
pub struct View {
    pub heading: &'static str,
    /// The mono line under the heading: the instruction, the state or the error.
    pub status: String,
    /// Secondary body text (the setup hint).
    pub body: &'static str,
    /// The field's placeholder; `None` hides the field.
    pub field: Option<&'static str>,
    pub secret: bool,
    pub buttons: Vec<Button>,
}

/// The status line of the password step.
pub open spec fn password_status(hint: Seq<char>) -> Seq<char> {
    if trimmed(hint).len() == 0 {
        "TWO-STEP PASSWORD"@
    } else {
        "TWO-STEP PASSWORD · HINT: "@ + upper(trimmed(hint))
    }
}

/// The heading, status line, body, field placeholder, secrecy and buttons of a step.
pub open spec fn view_parts(step: Step) -> (Seq<char>, Seq<char>, Seq<char>, Option<Seq<char>>, bool, Seq<Button>) {
    let title = "Connect your library"@;
    match step {
        Step::Setup => ("Add your Telegram API id and hash in Settings"@, Seq::empty(),
            "Create them at my.telegram.org/apps. The TMDB key goes there too."@, None, false, seq![Button::OpenSettings]),
        Step::Unavailable => (title, "TDLIB NOT FOUND"@,
            "Flox could not load TDLib. Put tdjson next to flox.exe, or reinstall Flox."@, None, false, seq![]),
        Step::Connecting | Step::Done => (title, "CONNECTING"@, ""@, None, false, seq![]),
        Step::Qr { .. } => (title, "SCAN WITH THE TELEGRAM APP · SETTINGS · DEVICES · LINK DESKTOP DEVICE"@,
            ""@, None, false, seq![Button::UsePhone]),
        Step::Phone => (title, "PHONE NUMBER WITH COUNTRY CODE"@, ""@, Some("+1 555 123 4567"@), false,
            seq![Button::SendCode, Button::UseQr]),
        Step::Code => (title, "CODE FROM THE TELEGRAM APP"@, ""@, Some("12345"@), false,
            seq![Button::Continue, Button::UseQr]),
        Step::Password { hint } => (title, password_status(hint@), ""@, Some("Password"@), true,
            seq![Button::Continue]),
        Step::Failed { message } => (title, message@, ""@, None, false, seq![Button::TryAgain]),
    }
}

/// The step's text, field and buttons.
pub fn view(step: &Step) -> (v: View)
    ensures
        ({
            let (heading, status, body, field, secret, buttons) = view_parts(*step);
            &&& v.heading@ == heading
            &&& v.status@ == status
            &&& v.body@ == body
            &&& (v.field is Some <==> field is Some)
            &&& (v.field is Some ==> v.field.unwrap()@ == field.unwrap())
            &&& v.secret == secret
            &&& v.buttons@ == buttons
        }),
{
    match step {
        Step::Setup => {
            let v = View {
                heading: "Add your Telegram API id and hash in Settings",
                status: String::new(),
                body: "Create them at my.telegram.org/apps. The TMDB key goes there too.",
                field: None,
                secret: false,
                buttons: vec![Button::OpenSettings],
            };
            v
        },
        Step::Unavailable => View {
            heading: TITLE,
            status: crate::text::owned(TDLIB_NOT_FOUND),
            body: UNAVAILABLE_BODY,
            field: None,
            secret: false,
            buttons: Vec::new(),
        },
        Step::Connecting | Step::Done => View {
            heading: TITLE,
            status: crate::text::owned(CONNECTING),
            body: "",
            field: None,
            secret: false,
            buttons: Vec::new(),
        },
        Step::Qr { .. } => View {
            heading: TITLE,
            status: crate::text::owned(SCAN),
            body: "",
            field: None,
            secret: false,
            buttons: vec![Button::UsePhone],
        },
        Step::Phone => View {
            heading: TITLE,
            status: crate::text::owned(PHONE),
            body: "",
            field: Some("+1 555 123 4567"),
            secret: false,
            buttons: vec![Button::SendCode, Button::UseQr],
        },
        Step::Code => View {
            heading: TITLE,
            status: crate::text::owned(CODE),
            body: "",
            field: Some("12345"),
            secret: false,
            buttons: vec![Button::Continue, Button::UseQr],
        },
        Step::Password { hint } => {
            let t = trim_str(hint.as_str());
            let status = if t.len() == 0 {
                crate::text::owned(PASSWORD)
            } else {
                let mut out: Vec<char> = Vec::new();
                push_str(&mut out, "TWO-STEP PASSWORD · HINT: ");
                let ts = string_of(&t);
                let u = to_upper(ts.as_str());
                push_str(&mut out, u.as_str());
                string_of(&out)
            };
            View { heading: TITLE, status, body: "", field: Some("Password"), secret: true, buttons: vec![Button::Continue] }
        },
        Step::Failed { message } => View {
            heading: TITLE,
            status: message.clone(),
            body: "",
            field: None,
            secret: false,
            buttons: vec![Button::TryAgain],
        },
    }
}

/// The step's zones: the field (when shown), then the buttons.
pub fn zones(view: &View) -> (z: Vec<Zone>)
    ensures
        z@ == seq![
            Zone { id: ZoneId(FIELD), layout: Layout::Row, items: if view.field is Some { 1 } else { 0 }, text: true, preferred: 0 },
            Zone { id: ZoneId(ACTIONS), layout: Layout::Row, items: view.buttons@.len() as usize, text: false, preferred: 0 },
        ],
{
    let mut z: Vec<Zone> = Vec::new();
    z.push(Zone::row(ZoneId(FIELD), if view.field.is_some() { 1 } else { 0 }).text());
    z.push(Zone::row(ZoneId(ACTIONS), view.buttons.len()));
    z
}

/// What submitting the field sends.
#[derive(Debug, PartialEq, Eq)]
pub enum Submit {
    Phone(String),
    Code(String),
    Password(String),
}

/// The request for `text` typed at `step`; `None` when there is nothing to send. Phone
/// numbers and codes are trimmed; passwords are sent as typed.
pub fn submission(step: &Step, text: &str) -> (r: Option<Submit>)
    ensures
        match *step {
            Step::Phone => if trimmed(text@).len() > 0 {
                r matches Some(Submit::Phone(p)) && p@ == trimmed(text@)
            } else {
                r is None
            },
            Step::Code => if trimmed(text@).len() > 0 {
                r matches Some(Submit::Code(p)) && p@ == trimmed(text@)
            } else {
                r is None
            },
            Step::Password { .. } => if text@.len() > 0 {
                r matches Some(Submit::Password(p)) && p@ == text@
            } else {
                r is None
            },
            _ => r is None,
        },
{
    let t = trim_str(text);
    match step {
        Step::Phone => if t.len() > 0 { Some(Submit::Phone(string_of(&t))) } else { None },
        Step::Code => if t.len() > 0 { Some(Submit::Code(string_of(&t))) } else { None },
        Step::Password { .. } => {
            if text.unicode_len() > 0 { Some(Submit::Password(crate::text::owned(text))) } else { None }
        },
        _ => None,
    }
}

/// The kind of a step.
pub open spec fn step_kind(s: Step) -> u8 {
    match s {
        Step::Setup => 0,
        Step::Unavailable => 1,
        Step::Connecting => 2,
        Step::Qr { .. } => 3,
        Step::Phone => 4,
        Step::Code => 5,
        Step::Password { .. } => 6,
        Step::Failed { .. } => 7,
        Step::Done => 8,
    }
}

fn step_kind_exec(s: &Step) -> (k: u8)
    ensures
        k == step_kind(*s),
{
    match s {
        Step::Setup => 0,
        Step::Unavailable => 1,
        Step::Connecting => 2,
        Step::Qr { .. } => 3,
        Step::Phone => 4,
        Step::Code => 5,
        Step::Password { .. } => 6,
        Step::Failed { .. } => 7,
        Step::Done => 8,
    }
}

/// The steps whose field keeps its text between renders of the same step: the same kind of
/// step, whatever it carries.
pub fn same_step(a: &Step, b: &Step) -> (r: bool)
    ensures
        r == (step_kind(*a) == step_kind(*b)),
{
    step_kind_exec(a) == step_kind_exec(b)
}


/// What `qrcode::QrCode::new` makes of a link's UTF-8 bytes: `None` when no QR code holds
/// them, else the width in modules and which modules are dark, row by row.
pub uninterp spec fn qr_code(link: Seq<char>) -> Option<(nat, Seq<bool>)>;

/// `qrcode::QrCode::new` on the link's bytes, then `width` and `to_colors` (dark modules as
/// `true`). The result is named [`qr_code`] of the link; the colors cover the code's
/// `width * width` modules, as its canvas holds them.
#[verifier::external_body]
fn qr_modules(link: &str) -> (r: Option<(usize, Vec<bool>)>)
    ensures
        r matches Some((w, dark)) ==> qr_code(link@) == Some((w as nat, dark@)) && dark@.len() == w * w,
        r is None ==> qr_code(link@) is None,
{
    let code = qrcode::QrCode::new(link.as_bytes()).ok()?;
    Some((code.width(), code.to_colors().into_iter().map(|c| c == qrcode::Color::Dark).collect()))
}

/// Whether pixel (`px`, `py`) falls on a dark module: modules are `scale` pixels wide,
/// start at `offset` and sit inside a one-module quiet zone.
pub open spec fn qr_dark_at(w: int, dark: Seq<bool>, scale: int, offset: int, px: int, py: int) -> bool {
    &&& px >= offset
    &&& py >= offset
    &&& 1 <= (px - offset) / scale <= w
    &&& 1 <= (py - offset) / scale <= w
    &&& dark[((py - offset) / scale - 1) * w + ((px - offset) / scale - 1)]
}

/// Byte `i` of the `size`×`size` RGBA image of a code of width `w`: black on white,
/// whole-pixel modules, centred, with a one-module quiet zone; alpha always opaque.
pub open spec fn qr_byte(size: int, w: int, dark: Seq<bool>, i: int) -> u8 {
    let modules = w + 2;
    let scale = size / modules;
    let offset = (size - modules * scale) / 2;
    let p = i / 4;
    if i % 4 < 3 && qr_dark_at(w, dark, scale, offset, p % size, p / size) { 0u8 } else { 0xFFu8 }
}

/// The whole image, byte by byte.
pub open spec fn qr_pixels(size: int, w: int, dark: Seq<bool>) -> Seq<u8> {
    Seq::new((size * size * 4) as nat, |i: int| qr_byte(size, w, dark, i))
}

/// The image of `link` at `size`, `None` when no QR code holds the link or the size cannot
/// give every module a pixel.
pub open spec fn qr_rgba_spec(link: Seq<char>, size: u32) -> Option<Seq<u8>> {
    match qr_code(link) {
        None => None,
        Some((w, dark)) => if (size as int) / (w as int + 2) == 0 { None } else { Some(qr_pixels(size as int, w as int, dark)) },
    }
}

proof fn lemma_pixel_index(j: int, py: int, px: int, size: int)
    requires
        0 <= py,
        0 <= px < size,
        (py * size + px) * 4 <= j < (py * size + px) * 4 + 4,
    ensures
        j / 4 == py * size + px,
        j % 4 == j - (py * size + px) * 4,
        (py * size + px) % size == px,
        (py * size + px) / size == py,
{
    vstd::arithmetic::div_mod::lemma_fundamental_div_mod_converse(j, 4, py * size + px, j - (py * size + px) * 4);
    vstd::arithmetic::div_mod::lemma_fundamental_div_mod_converse(py * size + px, size, py, px);
}

/// Draws `link` as a black-on-white QR code, `size`×`size` RGBA, with a one-module quiet
/// zone. Modules are whole pixels, centred.
pub fn qr_rgba(link: &str, size: u32) -> (r: Option<Vec<u8>>)
    requires
        size as int * size as int * 4 <= usize::MAX,
    ensures
        match r {
            Some(px) => qr_rgba_spec(link@, size) == Some(px@),
            None => qr_rgba_spec(link@, size) is None,
        },
{
    let (w, dark) = match qr_modules(link) {
        Some(m) => m,
        None => {
            return None;
        },
    };
    let cells = dark.len();
    assert(w + 2 <= usize::MAX) by (nonlinear_arith)
        requires
            w * w == cells,
            cells <= usize::MAX,
            usize::MAX >= 0xFFFF_FFFF,
    ;
    let modules = w + 2;
    let size_px = size as usize;
    let scale = size_px / modules;
    if scale == 0 {
        return None;
    }
    assert(modules * scale <= size_px) by (nonlinear_arith)
        requires
            scale == size_px / modules,
            modules > 0,
    ;
    let offset = (size_px - modules * scale) / 2;
    let mut out: Vec<u8> = Vec::new();
    let mut py: usize = 0;
    while py < size_px
        invariant
            size_px == size,
            size as int * size as int * 4 <= usize::MAX,
            py <= size_px,
            scale > 0,
            modules == w + 2,
            scale == size_px / modules,
            offset == (size_px - modules * scale) / 2,
            dark@.len() == w * w,
            w * w <= usize::MAX,
            out@.len() == py * size_px * 4,
            forall|j: int| 0 <= j < out@.len() ==> out@[j] == qr_byte(size as int, w as int, dark@, j),
        decreases size_px - py,
    {
        let mut px: usize = 0;
        while px < size_px
            invariant
                size_px == size,
                size as int * size as int * 4 <= usize::MAX,
                py < size_px,
                px <= size_px,
                scale > 0,
                modules == w + 2,
                scale == size_px / modules,
                offset == (size_px - modules * scale) / 2,
                dark@.len() == w * w,
                w * w <= usize::MAX,
                out@.len() == (py * size_px + px) * 4,
                forall|j: int| 0 <= j < out@.len() ==> out@[j] == qr_byte(size as int, w as int, dark@, j),
            decreases size_px - px,
        {
            let mut on = false;
            if px >= offset && py >= offset {
                let mx = (px - offset) / scale;
                let my = (py - offset) / scale;
                if 1 <= mx && mx <= w && 1 <= my && my <= w {
                    assert((my - 1) * w + (mx - 1) < w * w && (my - 1) * w <= w * w) by (nonlinear_arith)
                        requires
                            1 <= mx <= w,
                            1 <= my <= w,
                    ;
                    on = dark[(my - 1) * w + (mx - 1)];
                }
            }
            let v: u8 = if on { 0 } else { 0xFF };
            assert(py * size_px + px < size_px * size_px) by (nonlinear_arith)
                requires
                    py < size_px,
                    px < size_px,
            ;
            let ghost before = out@;
            out.push(v);
            out.push(v);
            out.push(v);
            out.push(0xFF);
            proof {
                let b = (py * size_px + px) * 4;
                assert forall|j: int| b <= j < b + 4 implies #[trigger] out@[j] == qr_byte(size as int, w as int, dark@, j) by {
                    lemma_pixel_index(j, py as int, px as int, size_px as int);
                    assert(on == qr_dark_at(w as int, dark@, scale as int, offset as int, px as int, py as int));
                }
                assert forall|j: int| 0 <= j < out@.len() implies out@[j] == qr_byte(size as int, w as int, dark@, j) by {
                    if j < b {
                        assert(out@[j] == before[j]);
                    }
                }
            }
            px = px + 1;
        }
        assert((py * size_px + size_px) * 4 == (py + 1) * size_px * 4) by (nonlinear_arith);
        py = py + 1;
    }
    proof {
        assert(out@ =~= qr_pixels(size as int, w as int, dark@));
    }
    Some(out)
}

} // verus!
