//! Window bookkeeping and input decisions of the compositors.
//!
//! The compositor keeps, per app, whether its window is shown ("mapped"),
//! put aside by the home action ("shelved"), and whether its process was
//! launched. [`WindowBook`] holds that by app id and decides what to do on
//! a launch or home request; the caller carries the decision out on the
//! real windows and processes.
use crate::app::{AppId, DemoApp, DemoAppView};
use crate::control::ControlRequest;
use crate::scene::{
    APP_VIEWPORT_HEIGHT_PX, APP_VIEWPORT_WIDTH_PX, APP_VIEWPORT_X_PX, APP_VIEWPORT_Y_PX, SHELL_HEIGHT_PX, SHELL_WIDTH_PX,
};
use crate::text::{lemma_text_lt_total, lemma_text_lt_transitive, str_lt, text_lt};
use crate::shell::NavAction;
use vstd::prelude::*;
use vstd::string::*;

verus! {

/// Width of the surface an app runtime renders.
pub fn runtime_surface_width() -> (r: u32)
    ensures
        r == APP_VIEWPORT_WIDTH_PX,
{
    APP_VIEWPORT_WIDTH_PX
}

/// Height of the surface an app runtime renders.
pub fn runtime_surface_height() -> (r: u32)
    ensures
        r == APP_VIEWPORT_HEIGHT_PX,
{
    APP_VIEWPORT_HEIGHT_PX
}

/// Where a `w` x `h` box goes to be centred on an output whose geometry is
/// `(x, y, width, height)`; the origin when there is no output. A box
/// larger than the output starts at the output's corner.
pub open spec fn centered_location_spec(output: Option<(i32, i32, i32, i32)>, w: int, h: int) -> (int, int) {
    match output {
        Some((ox, oy, ow, oh)) => (
            ox + (if ow - w > 0 { (ow - w) / 2 } else { 0 }),
            oy + (if oh - h > 0 { (oh - h) / 2 } else { 0 }),
        ),
        None => (0, 0),
    }
}

/// Where a `w` x `h` box goes to be centred on the output.
pub fn centered_location(output: Option<(i32, i32, i32, i32)>, w: i32, h: i32) -> (r: (i32, i32))
    requires
        output matches Some((ox, oy, ow, oh)) ==> i32::MIN <= ow - w <= i32::MAX && i32::MIN <= oh - h
            <= i32::MAX && ox + (if ow - w > 0 { (ow - w) / 2 } else { 0 }) <= i32::MAX && oy + (if oh - h > 0 {
            (oh - h) / 2
        } else {
            0
        }) <= i32::MAX,
    ensures
        (r.0 as int, r.1 as int) == centered_location_spec(output, w as int, h as int),
{
    match output {
        Some((ox, oy, ow, oh)) => {
            let dw = ow - w;
            let dh = oh - h;
            let x = ox + if dw > 0 { dw / 2 } else { 0 };
            let y = oy + if dh > 0 { dh / 2 } else { 0 };
            (x, y)
        },
        None => (0, 0),
    }
}

/// Where the desktop compositor puts the shell: centred on the output.
pub fn shell_location(output: Option<(i32, i32, i32, i32)>) -> (r: (i32, i32))
    requires
        output matches Some((ox, oy, ow, oh)) ==> ow - 540 >= i32::MIN && oh - 1170 >= i32::MIN && ox + (if ow - 540 > 0 {
            (ow - 540) / 2
        } else {
            0
        }) <= i32::MAX && oy + (if oh - 1170 > 0 { (oh - 1170) / 2 } else { 0 }) <= i32::MAX,
    ensures
        (r.0 as int, r.1 as int) == centered_location_spec(output, SHELL_WIDTH_PX as int, SHELL_HEIGHT_PX as int),
{
    centered_location(output, SHELL_WIDTH_PX as i32, SHELL_HEIGHT_PX as i32)
}

/// Where the desktop compositor puts an app's window: the app viewport of
/// the centred shell.
pub fn app_window_location(output: Option<(i32, i32, i32, i32)>) -> (r: (i32, i32))
    requires
        output matches Some((ox, oy, ow, oh)) ==> ow - 540 >= i32::MIN && oh - 1170 >= i32::MIN && ox + (if ow - 540 > 0 {
            (ow - 540) / 2
        } else {
            0
        }) + APP_VIEWPORT_X_PX <= i32::MAX && oy + (if oh - 1170 > 0 { (oh - 1170) / 2 } else { 0 })
            + APP_VIEWPORT_Y_PX <= i32::MAX,
    ensures
        r.0 == centered_location_spec(output, SHELL_WIDTH_PX as int, SHELL_HEIGHT_PX as int).0 + APP_VIEWPORT_X_PX,
        r.1 == centered_location_spec(output, SHELL_WIDTH_PX as int, SHELL_HEIGHT_PX as int).1 + APP_VIEWPORT_Y_PX,
{
    let (x, y) = shell_location(output);
    (x + APP_VIEWPORT_X_PX as i32, y + APP_VIEWPORT_Y_PX as i32)
}

/// X keysyms the compositor reacts to.
pub const KEY_SPACE: u32 = 0x0020;
pub const KEY_ISO_LEFT_TAB: u32 = 0xfe20;
pub const KEY_TAB: u32 = 0xff09;
pub const KEY_RETURN: u32 = 0xff0d;
pub const KEY_ESCAPE: u32 = 0xff1b;
pub const KEY_HOME: u32 = 0xff50;
pub const KEY_LEFT: u32 = 0xff51;
pub const KEY_UP: u32 = 0xff52;
pub const KEY_RIGHT: u32 = 0xff53;
pub const KEY_DOWN: u32 = 0xff54;
pub const KEY_KP_ENTER: u32 = 0xff8d;

/// What a key means to the compositor.
#[derive(Clone, Copy, Debug, PartialEq, Eq, Structural)]
pub enum KeyboardIntent {
    /// Taken by the compositor, with nothing to do.
    Ignore,
    Shell(NavAction),
    Home,
}

/// Whether a key goes to the focused app or is taken by the compositor.
#[derive(Clone, Copy, Debug, PartialEq, Eq, Structural)]
pub enum KeyDecision {
    Forward,
    Intercept(KeyboardIntent),
}

/// The shell navigation a key asks for.
pub open spec fn nav_for_key(keysym: u32) -> Option<NavAction> {
    if keysym == KEY_LEFT {
        Some(NavAction::Left)
    } else if keysym == KEY_RIGHT {
        Some(NavAction::Right)
    } else if keysym == KEY_UP {
        Some(NavAction::Up)
    } else if keysym == KEY_DOWN {
        Some(NavAction::Down)
    } else if keysym == KEY_RETURN || keysym == KEY_KP_ENTER || keysym == KEY_SPACE {
        Some(NavAction::Activate)
    } else if keysym == KEY_TAB {
        Some(NavAction::Next)
    } else if keysym == KEY_ISO_LEFT_TAB {
        Some(NavAction::Previous)
    } else if keysym == KEY_HOME {
        Some(NavAction::Home)
    } else {
        None
    }
}

/// What the compositor does with a key: with an app in front, Home and
/// Escape presses go home and everything else reaches the app; with the
/// shell in front, navigation keys drive the shell. Releases of the keys
/// the compositor uses are swallowed.
pub open spec fn key_decision_spec(pressed: bool, keysym: u32, has_foreground_app: bool) -> KeyDecision {
    if pressed {
        if (keysym == KEY_HOME || keysym == KEY_ESCAPE) && has_foreground_app {
            KeyDecision::Intercept(KeyboardIntent::Home)
        } else if !has_foreground_app && nav_for_key(keysym) is Some {
            KeyDecision::Intercept(KeyboardIntent::Shell(nav_for_key(keysym)->0))
        } else {
            KeyDecision::Forward
        }
    } else if nav_for_key(keysym) is Some || keysym == KEY_ESCAPE {
        KeyDecision::Intercept(KeyboardIntent::Ignore)
    } else {
        KeyDecision::Forward
    }
}

fn nav_key(keysym: u32) -> (r: Option<NavAction>)
    ensures
        r == nav_for_key(keysym),
{
    if keysym == KEY_LEFT {
        Some(NavAction::Left)
    } else if keysym == KEY_RIGHT {
        Some(NavAction::Right)
    } else if keysym == KEY_UP {
        Some(NavAction::Up)
    } else if keysym == KEY_DOWN {
        Some(NavAction::Down)
    } else if keysym == KEY_RETURN || keysym == KEY_KP_ENTER || keysym == KEY_SPACE {
        Some(NavAction::Activate)
    } else if keysym == KEY_TAB {
        Some(NavAction::Next)
    } else if keysym == KEY_ISO_LEFT_TAB {
        Some(NavAction::Previous)
    } else if keysym == KEY_HOME {
        Some(NavAction::Home)
    } else {
        None
    }
}

/// Decides what to do with a key press or release.
pub fn key_decision(pressed: bool, keysym: u32, has_foreground_app: bool) -> (r: KeyDecision)
    ensures
        r == key_decision_spec(pressed, keysym, has_foreground_app),
        pressed && !has_foreground_app && keysym == KEY_LEFT ==> r == KeyDecision::Intercept(
            KeyboardIntent::Shell(NavAction::Left),
        ),
        pressed && !has_foreground_app && keysym == KEY_RIGHT ==> r == KeyDecision::Intercept(
            KeyboardIntent::Shell(NavAction::Right),
        ),
        pressed && !has_foreground_app && keysym == KEY_UP ==> r == KeyDecision::Intercept(
            KeyboardIntent::Shell(NavAction::Up),
        ),
        pressed && !has_foreground_app && keysym == KEY_DOWN ==> r == KeyDecision::Intercept(
            KeyboardIntent::Shell(NavAction::Down),
        ),
{
    let nav = nav_key(keysym);
    if pressed {
        if (keysym == KEY_HOME || keysym == KEY_ESCAPE) && has_foreground_app {
            return KeyDecision::Intercept(KeyboardIntent::Home);
        }
        if !has_foreground_app {
            if let Some(action) = nav {
                return KeyDecision::Intercept(KeyboardIntent::Shell(action));
            }
        }
        KeyDecision::Forward
    } else if nav.is_some() || keysym == KEY_ESCAPE {
        KeyDecision::Intercept(KeyboardIntent::Ignore)
    } else {
        KeyDecision::Forward
    }
}

/// With the shell in front, each arrow key moves the shell's focus in its
/// own direction, the activation keys launch, Tab and Shift-Tab step
/// forward and back, and Home goes home; with an app in front the arrows
/// reach the app and Home or Escape go home; releasing an arrow is
/// swallowed either way.
pub proof fn lemma_keys_drive_the_shell(has_foreground_app: bool)
    ensures
        !has_foreground_app ==> {
            &&& key_decision_spec(true, KEY_LEFT, false) == KeyDecision::Intercept(KeyboardIntent::Shell(NavAction::Left))
            &&& key_decision_spec(true, KEY_RIGHT, false) == KeyDecision::Intercept(KeyboardIntent::Shell(NavAction::Right))
            &&& key_decision_spec(true, KEY_UP, false) == KeyDecision::Intercept(KeyboardIntent::Shell(NavAction::Up))
            &&& key_decision_spec(true, KEY_DOWN, false) == KeyDecision::Intercept(KeyboardIntent::Shell(NavAction::Down))
            &&& key_decision_spec(true, KEY_RETURN, false) == KeyDecision::Intercept(KeyboardIntent::Shell(NavAction::Activate))
            &&& key_decision_spec(true, KEY_KP_ENTER, false) == KeyDecision::Intercept(KeyboardIntent::Shell(NavAction::Activate))
            &&& key_decision_spec(true, KEY_SPACE, false) == KeyDecision::Intercept(KeyboardIntent::Shell(NavAction::Activate))
            &&& key_decision_spec(true, KEY_TAB, false) == KeyDecision::Intercept(KeyboardIntent::Shell(NavAction::Next))
            &&& key_decision_spec(true, KEY_ISO_LEFT_TAB, false) == KeyDecision::Intercept(KeyboardIntent::Shell(NavAction::Previous))
            &&& key_decision_spec(true, KEY_HOME, false) == KeyDecision::Intercept(KeyboardIntent::Shell(NavAction::Home))
        },
        has_foreground_app ==> {
            &&& key_decision_spec(true, KEY_LEFT, true) == KeyDecision::Forward
            &&& key_decision_spec(true, KEY_RIGHT, true) == KeyDecision::Forward
            &&& key_decision_spec(true, KEY_UP, true) == KeyDecision::Forward
            &&& key_decision_spec(true, KEY_DOWN, true) == KeyDecision::Forward
            &&& key_decision_spec(true, KEY_HOME, true) == KeyDecision::Intercept(KeyboardIntent::Home)
            &&& key_decision_spec(true, KEY_ESCAPE, true) == KeyDecision::Intercept(KeyboardIntent::Home)
        },
        key_decision_spec(false, KEY_LEFT, has_foreground_app) == KeyDecision::Intercept(KeyboardIntent::Ignore),
        key_decision_spec(false, KEY_RIGHT, has_foreground_app) == KeyDecision::Intercept(KeyboardIntent::Ignore),
        key_decision_spec(false, KEY_UP, has_foreground_app) == KeyDecision::Intercept(KeyboardIntent::Ignore),
        key_decision_spec(false, KEY_DOWN, has_foreground_app) == KeyDecision::Intercept(KeyboardIntent::Ignore),
{
}

/// The reply to a control request that was carried out.
pub fn control_ok_reply() -> (r: String)
    ensures
        r@ == "ok\n"@,
{
    String::from_str("ok\n")
}

/// `s` with each line break turned into a space.
pub open spec fn newlines_to_spaces(s: Seq<char>) -> Seq<char> {
    s.map_values(|c: char| if c == '\n' { ' ' } else { c })
}

/// The reply to a control request that failed: `error=`, the message on a
/// single line, and a line break.
pub fn control_error_reply(message: &str) -> (r: String)
    ensures
        r@ == "error="@ + newlines_to_spaces(message@) + "\n"@,
{
    let n = message.unicode_len();
    let mut out = String::from_str("error=");
    let mut last: usize = 0;
    let mut i: usize = 0;
    while i < n
        invariant
            n == message@.len(),
            last <= i <= n,
            out@ == "error="@ + newlines_to_spaces(message@.take(last as int)) + message@.subrange(
                last as int,
                i as int,
            ),
            forall|k: int| last <= k < i ==> message@[k] != '\n',
        decreases n - i,
    {
        let c = message.get_char(i);
        if c == '\n' {
            out.append(" ");
            proof {
                reveal_strlit(" ");
                let lhs = newlines_to_spaces(message@.take(i + 1));
                let rhs = newlines_to_spaces(message@.take(last as int)) + message@.subrange(last as int, i as int)
                    + seq![' '];
                assert forall|k: int| 0 <= k < lhs.len() implies lhs[k] == rhs[k] by {
                    if last <= k < i {
                        assert(message@[k] != '\n');
                    }
                }
                assert(lhs =~= rhs);
                assert(message@.subrange(i + 1, i + 1) =~= Seq::<char>::empty());
            }
            last = i + 1;
        } else {
            out.append(message.substring_char(i, i + 1));
            assert(message@.subrange(last as int, i + 1) =~= message@.subrange(last as int, i as int)
                + message@.subrange(i as int, i + 1));
        }
        i = i + 1;
    }
    proof {
        let lhs = newlines_to_spaces(message@);
        let rhs = newlines_to_spaces(message@.take(last as int)) + message@.subrange(last as int, n as int);
        assert forall|k: int| 0 <= k < lhs.len() implies lhs[k] == rhs[k] by {
            if last <= k < n {
                assert(message@[k] != '\n');
            }
        }
        assert(lhs =~= rhs);
    }
    out.append("\n");
    out
}

/// Where `c` first occurs in `w` at or after `i`, if it does.
pub open spec fn first_index_from(w: Seq<char>, c: char, i: int) -> Option<int>
    decreases w.len() - i,
{
    if i < 0 || i >= w.len() {
        None
    } else if w[i] == c {
        Some(i)
    } else {
        first_index_from(w, c, i + 1)
    }
}

/// A `KEY=VALUE` word split at its first `=`, when the key is not empty.
pub open spec fn assignment_of(w: Seq<char>) -> Option<(Seq<char>, Seq<char>)> {
    match first_index_from(w, '=', 0) {
        Some(k) => if k > 0 {
            Some((w.take(k), w.skip(k + 1)))
        } else {
            None
        },
        None => None,
    }
}

/// The assignments among `words`, in order.
pub open spec fn assignments_of(words: Seq<Seq<char>>) -> Seq<(Seq<char>, Seq<char>)>
    decreases words.len(),
{
    if words.len() == 0 {
        Seq::empty()
    } else {
        let rest = assignments_of(words.drop_last());
        match assignment_of(words.last()) {
            Some(a) => rest.push(a),
            None => rest,
        }
    }
}

proof fn lemma_first_index_scan(w: Seq<char>, c: char, i: int)
    requires
        0 <= i <= w.len(),
        forall|k: int| 0 <= k < i ==> w[k] != c,
    ensures
        first_index_from(w, c, 0) == first_index_from(w, c, i),
    decreases i,
{
    if i > 0 {
        lemma_first_index_scan(w, c, i - 1);
    }
}

/// The word split at its first `=`, unless the key before it is empty.
fn split_assignment(word: &str) -> (r: Option<(String, String)>)
    ensures
        match assignment_of(word@) {
            Some((k, v)) => r matches Some(p) && p.0@ == k && p.1@ == v,
            None => r is None,
        },
{
    let n = word.unicode_len();
    let mut i: usize = 0;
    while i < n
        invariant
            n == word@.len(),
            i <= n,
            forall|k: int| 0 <= k < i ==> word@[k] != '=',
        decreases n - i,
    {
        if word.get_char(i) == '=' {
            proof {
                lemma_first_index_scan(word@, '=', i as int);
            }
            if i == 0 {
                return None;
            }
            let key = String::from_str(word.substring_char(0, i));
            let value = String::from_str(word.substring_char(i + 1, n));
            assert(word@.take(i as int) =~= word@.subrange(0, i as int));
            assert(word@.skip(i + 1) =~= word@.subrange(i + 1, n as int));
            return Some((key, value));
        }
        i = i + 1;
    }
    proof {
        lemma_first_index_scan(word@, '=', n as int);
    }
    None
}

/// The `KEY=VALUE` assignments of an extra-environment setting: its
/// white-space separated words split at their first `=`, skipping words
/// without one or with an empty key.
pub fn client_env_assignments(value: &str) -> (r: Vec<(String, String)>)
    ensures
        r@.map_values(|p: (String, String)| (p.0@, p.1@)) == assignments_of(crate::text::split_ws(value@)),
{
    let words = crate::text::split_whitespace(value);
    let ghost ws = crate::text::views_of(words@);
    let mut out: Vec<(String, String)> = Vec::new();
    let mut i: usize = 0;
    assert(ws.take(0) =~= Seq::<Seq<char>>::empty());
    while i < words.len()
        invariant
            ws == crate::text::views_of(words@),
            i <= words@.len(),
            out@.map_values(|p: (String, String)| (p.0@, p.1@)) == assignments_of(ws.take(i as int)),
        decreases words@.len() - i,
    {
        let ghost before = out@.map_values(|p: (String, String)| (p.0@, p.1@));
        assert(ws.take(i + 1).drop_last() =~= ws.take(i as int));
        assert(ws.take(i + 1).last() == words@[i as int]@);
        match split_assignment(words[i]) {
            Some(p) => {
                out.push(p);
                assert(out@.map_values(|p: (String, String)| (p.0@, p.1@)) =~= before.push(
                    assignment_of(words@[i as int]@)->0,
                ));
            },
            None => {},
        }
        i = i + 1;
    }
    assert(ws.take(words@.len() as int) =~= ws);
    out
}

/// Runtime directory of launched clients when none is set.
pub const GUEST_CLIENT_RUNTIME_DIR: &'static str = "/data/local/tmp/shadow-runtime";

/// One step in building a launched client's environment.
#[derive(Debug)]
pub enum EnvStep {
    /// Set the variable to the value.
    Assign(String, String),
    /// Pass the compositor's own setting of that name on, when it has one.
    Forward(&'static str),
}

pub open spec fn env_steps_view(v: Seq<EnvStep>) -> Seq<(Seq<char>, Option<Seq<char>>)> {
    v.map_values(|e: EnvStep| match e {
        EnvStep::Assign(k, x) => (k@, Some(x@)),
        EnvStep::Forward(k) => (k@, None::<Seq<char>>),
    })
}

pub open spec fn sets_view(v: Seq<(Seq<char>, Seq<char>)>) -> Seq<(Seq<char>, Option<Seq<char>>)> {
    v.map_values(|p: (Seq<char>, Seq<char>)| (p.0, Some(p.1)))
}

/// The environment steps for a client the guest compositor starts, in
/// order: runtime directory (its setting or the default), control socket,
/// then for an app its window title, Wayland app id and bundle path and the
/// script host binary setting, then the extra `KEY=VALUE` assignments, and
/// last the exit and linger settings.
pub open spec fn client_env_spec(
    app: Option<(Seq<char>, Seq<char>, Seq<char>)>,
    runtime_dir: Option<Seq<char>>,
    control_socket: Seq<char>,
    client_env: Option<Seq<char>>,
) -> Seq<(Seq<char>, Option<Seq<char>>)> {
    let head = seq![
        ("XDG_RUNTIME_DIR"@, Some(match runtime_dir { Some(d) => d, None => GUEST_CLIENT_RUNTIME_DIR@ })),
        (crate::control::COMPOSITOR_CONTROL_ENV@, Some(control_socket)),
    ];
    let with_app = match app {
        Some((title, wayland_id, bundle)) => head + seq![
            ("SHADOW_BLITZ_APP_TITLE"@, Some(title)),
            ("SHADOW_BLITZ_WAYLAND_APP_ID"@, Some(wayland_id)),
            ("SHADOW_RUNTIME_APP_BUNDLE_PATH"@, Some(bundle)),
            ("SHADOW_RUNTIME_HOST_BINARY_PATH"@, None),
        ],
        None => head,
    };
    let extra = match client_env {
        Some(v) => sets_view(assignments_of(crate::text::split_ws(v))),
        None => Seq::empty(),
    };
    with_app + extra + seq![
        ("SHADOW_GUEST_CLIENT_EXIT_ON_CONFIGURE"@, None),
        ("SHADOW_GUEST_CLIENT_LINGER_MS"@, None),
    ]
}

fn set_step(k: &str, v: String) -> (r: EnvStep)
    ensures
        env_steps_view(seq![r]) == seq![(k@, Some(v@))],
{
    let r = EnvStep::Assign(String::from_str(k), v);
    assert(env_steps_view(seq![r]) =~= seq![(k@, Some(v@))]);
    r
}

fn forward_step(k: &'static str) -> (r: EnvStep)
    ensures
        env_steps_view(seq![r]) == seq![(k@, None::<Seq<char>>)],
{
    let r = EnvStep::Forward(k);
    assert(env_steps_view(seq![r]) =~= seq![(k@, None::<Seq<char>>)]);
    r
}

fn push_step(steps: &mut Vec<EnvStep>, step: EnvStep)
    ensures
        env_steps_view(final(steps)@) == env_steps_view(old(steps)@) + env_steps_view(seq![step]),
{
    let ghost before = steps@;
    steps.push(step);
    assert(env_steps_view(steps@) =~= env_steps_view(before) + env_steps_view(seq![step]));
}

/// The environment steps for a client the guest compositor starts: the
/// test client (`app` is `None`) or an app with its bundle path.
pub fn client_env_steps(
    app: Option<(&DemoApp, String)>,
    runtime_dir: Option<String>,
    control_socket: &str,
    client_env: Option<&str>,
) -> (r: Vec<EnvStep>)
    ensures
        env_steps_view(r@) == client_env_spec(
            match app {
                Some((a, b)) => Some((a.window_title@, a.wayland_app_id@, b@)),
                None => None,
            },
            match runtime_dir {
                Some(d) => Some(d@),
                None => None,
            },
            control_socket@,
            match client_env {
                Some(v) => Some(v@),
                None => None,
            },
        ),
{
    let mut steps: Vec<EnvStep> = Vec::new();
    let dir = match runtime_dir {
        Some(d) => d,
        None => String::from_str(GUEST_CLIENT_RUNTIME_DIR),
    };
    push_step(&mut steps, set_step("XDG_RUNTIME_DIR", dir));
    push_step(&mut steps, set_step(crate::control::COMPOSITOR_CONTROL_ENV, String::from_str(control_socket)));
    match app {
        Some((a, bundle)) => {
            push_step(&mut steps, set_step("SHADOW_BLITZ_APP_TITLE", String::from_str(a.window_title)));
            push_step(&mut steps, set_step("SHADOW_BLITZ_WAYLAND_APP_ID", String::from_str(a.wayland_app_id)));
            push_step(&mut steps, set_step("SHADOW_RUNTIME_APP_BUNDLE_PATH", bundle));
            push_step(&mut steps, forward_step("SHADOW_RUNTIME_HOST_BINARY_PATH"));
        },
        None => {},
    }
    let ghost before_extra = env_steps_view(steps@);
    match client_env {
        Some(v) => {
            let pairs = client_env_assignments(v);
            let ghost pv = pairs@.map_values(|p: (String, String)| (p.0@, p.1@));
            let mut i: usize = 0;
            while i < pairs.len()
                invariant
                    i <= pairs@.len(),
                    pv == pairs@.map_values(|p: (String, String)| (p.0@, p.1@)),
                    env_steps_view(steps@) == before_extra + sets_view(pv.take(i as int)),
                decreases pairs@.len() - i,
            {
                let (k, x) = (pairs[i].0.clone(), pairs[i].1.clone());
                let ghost prev = env_steps_view(steps@);
                let step = EnvStep::Assign(k, x);
                assert(env_steps_view(seq![step]) =~= seq![(pv[i as int].0, Some(pv[i as int].1))]);
                push_step(&mut steps, step);
                assert(sets_view(pv.take(i + 1)) =~= sets_view(pv.take(i as int)) + seq![
                    (pv[i as int].0, Some(pv[i as int].1)),
                ]);
                i = i + 1;
            }
            assert(pv.take(pairs@.len() as int) =~= pv);
        },
        None => {
            assert(sets_view(Seq::<(Seq<char>, Seq<char>)>::empty()) =~= Seq::<(Seq<char>, Option<Seq<char>>)>::empty());
        },
    }
    push_step(&mut steps, forward_step("SHADOW_GUEST_CLIENT_EXIT_ON_CONFIGURE"));
    push_step(&mut steps, forward_step("SHADOW_GUEST_CLIENT_LINGER_MS"));
    steps
}

/// The error for an app whose bundle setting is missing.
pub fn missing_bundle_message(app: &DemoApp) -> (r: String)
    ensures
        r@ == "missing runtime bundle env "@ + app.runtime_bundle_env@,
{
    let mut msg = String::from_str("missing runtime bundle env ");
    msg.append(app.runtime_bundle_env);
    msg
}

/// The program the desktop compositor runs for an app's client.
#[derive(Debug)]
pub enum ClientProgram {
    /// A program named by a setting.
    Named(String),
    /// The app's binary next to the compositor's own.
    Sibling,
    /// The app built and run from the source workspace (if one is found).
    Workspace,
}

/// Why the desktop compositor found no program for a client.
#[derive(Clone, Copy, Debug, PartialEq, Eq, Structural)]
pub enum ClientProgramError {
    /// The compositor's own executable could not be located.
    NoExecutablePath,
}

/// Chooses the client program: the app-client setting, else the
/// demo-client setting, else the app's binary next to the compositor's
/// (`sibling_exists` tells whether it is there; `None` when the
/// compositor's own path is unknown), else a build from the workspace.
pub fn desktop_client_program(
    app_client: Option<String>,
    demo_client: Option<String>,
    sibling_exists: Option<bool>,
) -> (r: Result<ClientProgram, ClientProgramError>)
    ensures
        app_client matches Some(p) ==> r matches Ok(ClientProgram::Named(q)) && q == p,
        app_client is None ==> (demo_client matches Some(p) ==> r matches Ok(ClientProgram::Named(q)) && q == p),
        app_client is None && demo_client is None ==> match sibling_exists {
            Some(true) => r matches Ok(ClientProgram::Sibling),
            Some(false) => r matches Ok(ClientProgram::Workspace),
            None => r == Err::<ClientProgram, ClientProgramError>(ClientProgramError::NoExecutablePath),
        },
{
    match app_client {
        Some(p) => Ok(ClientProgram::Named(p)),
        None => match demo_client {
            Some(p) => Ok(ClientProgram::Named(p)),
            None => match sibling_exists {
                Some(true) => Ok(ClientProgram::Sibling),
                Some(false) => Ok(ClientProgram::Workspace),
                None => Err(ClientProgramError::NoExecutablePath),
            },
        },
    }
}

/// The environment the desktop compositor gives an app's client: the
/// Wayland socket, the control socket, the app's window title and Wayland
/// app id, the surface size, and the bundle to run.
pub open spec fn desktop_client_env_spec(
    socket: Seq<char>,
    control_socket: Seq<char>,
    app: DemoAppView,
    bundle: Seq<char>,
) -> Seq<(Seq<char>, Seq<char>)> {
    seq![
        ("WAYLAND_DISPLAY"@, socket),
        (crate::control::COMPOSITOR_CONTROL_ENV@, control_socket),
        ("SHADOW_BLITZ_APP_TITLE"@, app.window_title),
        ("SHADOW_BLITZ_WAYLAND_APP_ID"@, app.wayland_app_id),
        ("SHADOW_BLITZ_SURFACE_WIDTH"@, crate::text::decimal_text(APP_VIEWPORT_WIDTH_PX as nat)),
        ("SHADOW_BLITZ_SURFACE_HEIGHT"@, crate::text::decimal_text(APP_VIEWPORT_HEIGHT_PX as nat)),
        ("SHADOW_RUNTIME_APP_BUNDLE_PATH"@, bundle),
    ]
}

fn env_pair(key: &str, value: String) -> (r: (String, String))
    ensures
        r.0@ == key@,
        r.1@ == value@,
{
    (String::from_str(key), value)
}

fn decimal_string(n: u32) -> (r: String)
    ensures
        r@ == crate::text::decimal_text(n as nat),
{
    let mut s = String::new();
    proof {
        assert(s@ =~= Seq::<char>::empty());
    }
    crate::text::append_decimal(&mut s, n as u64);
    assert(s@ =~= crate::text::decimal_text(n as nat));
    s
}

/// The environment for an app's client started by the desktop compositor.
pub fn desktop_client_env(socket: &str, control_socket: &str, app: &DemoApp, bundle: String) -> (r: Vec<(String, String)>)
    ensures
        r@.map_values(|p: (String, String)| (p.0@, p.1@)) == desktop_client_env_spec(
            socket@,
            control_socket@,
            app@,
            bundle@,
        ),
{
    let mut r: Vec<(String, String)> = Vec::new();
    r.push(env_pair("WAYLAND_DISPLAY", String::from_str(socket)));
    r.push(env_pair(crate::control::COMPOSITOR_CONTROL_ENV, String::from_str(control_socket)));
    r.push(env_pair("SHADOW_BLITZ_APP_TITLE", String::from_str(app.window_title)));
    r.push(env_pair("SHADOW_BLITZ_WAYLAND_APP_ID", String::from_str(app.wayland_app_id)));
    r.push(env_pair("SHADOW_BLITZ_SURFACE_WIDTH", decimal_string(runtime_surface_width())));
    r.push(env_pair("SHADOW_BLITZ_SURFACE_HEIGHT", decimal_string(runtime_surface_height())));
    r.push(env_pair("SHADOW_RUNTIME_APP_BUNDLE_PATH", bundle));
    assert(r@.map_values(|p: (String, String)| (p.0@, p.1@)) =~= desktop_client_env_spec(
        socket@,
        control_socket@,
        app@,
        bundle@,
    ));
    r
}

/// What the compositor must do to the real windows for a request.
#[derive(Clone, Copy, Debug)]
pub enum WindowStep {
    /// Show and focus the app's mapped window.
    Focus(AppId),
    /// Map the app's shelved window again and focus it.
    Unshelve(AppId),
    /// Start the app; it shows up when its window maps.
    Spawn(AppId),
    /// The app was started and has not mapped a window yet.
    Wait,
}

/// A launch decision: first shelve the window of the app in front (if
/// another app is in front and its window is mapped), then take the step.
#[derive(Clone, Copy, Debug)]
pub struct LaunchPlan {
    pub shelve_first: Option<AppId>,
    pub step: WindowStep,
}

/// Abstract state of a [`WindowBook`]: the app in front, and the apps with
/// a mapped window, a shelved window, or a launched process.
pub struct BookView {
    pub focused: Option<Seq<char>>,
    pub mapped: Set<Seq<char>>,
    pub shelved: Set<Seq<char>>,
    pub launched: Set<Seq<char>>,
}

/// The ids of `v` as a set of texts.
pub open spec fn id_set(v: Seq<AppId>) -> Set<Seq<char>> {
    Set::new(|t: Seq<char>| exists|i: int| 0 <= i < v.len() && #[trigger] v[i]@ == t)
}

/// Per-app window and process bookkeeping of a compositor.
pub struct WindowBook {
    focused: Option<AppId>,
    mapped: Vec<AppId>,
    shelved: Vec<AppId>,
    launched: Vec<AppId>,
}

impl View for WindowBook {
    type V = BookView;

    closed spec fn view(&self) -> BookView {
        BookView {
            focused: match self.focused {
                Some(a) => Some(a@),
                None => None,
            },
            mapped: id_set(self.mapped@),
            shelved: id_set(self.shelved@),
            launched: id_set(self.launched@),
        }
    }
}

/// The state after going home: the app in front loses focus, and its
/// window, if mapped, is shelved.
pub open spec fn home_spec(b: BookView) -> BookView {
    match b.focused {
        Some(a) => if b.mapped.contains(a) {
            BookView { focused: None, mapped: b.mapped.remove(a), shelved: b.shelved.insert(a), ..b }
        } else {
            BookView { focused: None, ..b }
        },
        None => BookView { focused: None, ..b },
    }
}

/// The state after a launch-or-focus request for `app`.
pub open spec fn launch_spec(b: BookView, app: Seq<char>) -> BookView {
    let b0 = if b.focused matches Some(c) && c != app {
        home_spec(b)
    } else {
        b
    };
    if b0.mapped.contains(app) {
        BookView { focused: Some(app), ..b0 }
    } else if b0.shelved.contains(app) {
        BookView { focused: Some(app), mapped: b0.mapped.insert(app), shelved: b0.shelved.remove(app), ..b0 }
    } else {
        b0
    }
}

fn index_in(v: &Vec<AppId>, app: AppId) -> (r: Option<usize>)
    ensures
        match r {
            Some(i) => i < v@.len() && v@[i as int]@ == app@,
            None => !id_set(v@).contains(app@),
        },
{
    let mut i: usize = 0;
    while i < v.len()
        invariant
            0 <= i <= v@.len(),
            forall|j: int| 0 <= j < i ==> v@[j]@ != app@,
        decreases v@.len() - i,
    {
        if v[i] == app {
            return Some(i);
        }
        i = i + 1;
    }
    assert(!id_set(v@).contains(app@)) by {
        if id_set(v@).contains(app@) {
            let j = choose|j: int| 0 <= j < v@.len() && #[trigger] v@[j]@ == app@;
            assert(v@[j]@ != app@);
        }
    }
    None
}

/// Removes every copy of `app` from `v`.
fn remove_all(v: &mut Vec<AppId>, app: AppId)
    ensures
        id_set(final(v)@) == id_set(old(v)@).remove(app@),
{
    let ghost orig = v@;
    let mut out: Vec<AppId> = Vec::new();
    let mut i: usize = 0;
    while i < v.len()
        invariant
            0 <= i <= v@.len(),
            v@ == orig,
            forall|j: int| 0 <= j < out@.len() ==> #[trigger] out@[j]@ != app@,
            forall|t: Seq<char>| id_set(out@).contains(t) <==> (t != app@ && exists|j: int| 0 <= j < i && #[trigger] orig[j]@ == t),
        decreases v@.len() - i,
    {
        let x = v[i];
        if !(x == app) {
            let ghost before = out@;
            out.push(x);
            assert forall|t: Seq<char>| id_set(out@).contains(t) <==> (t != app@ && exists|j: int| 0 <= j < i + 1 && #[trigger] orig[j]@ == t) by {
                if id_set(out@).contains(t) {
                    let k = choose|k: int| 0 <= k < out@.len() && #[trigger] out@[k]@ == t;
                    if k < before.len() {
                        assert(id_set(before).contains(t));
                    } else {
                        assert(orig[i as int]@ == t);
                    }
                }
                if t != app@ && exists|j: int| 0 <= j < i + 1 && #[trigger] orig[j]@ == t {
                    let j = choose|j: int| 0 <= j < i + 1 && #[trigger] orig[j]@ == t;
                    if j < i {
                        assert(id_set(before).contains(t));
                        let k = choose|k: int| 0 <= k < before.len() && #[trigger] before[k]@ == t;
                        assert(out@[k]@ == t);
                    } else {
                        assert(out@[before.len() as int]@ == t);
                    }
                }
            }
        } else {
            assert forall|t: Seq<char>| id_set(out@).contains(t) <==> (t != app@ && exists|j: int| 0 <= j < i + 1 && #[trigger] orig[j]@ == t) by {
                if t != app@ && exists|j: int| 0 <= j < i + 1 && #[trigger] orig[j]@ == t {
                    let j = choose|j: int| 0 <= j < i + 1 && #[trigger] orig[j]@ == t;
                    if j == i {
                        assert(orig[j]@ == app@);
                    }
                }
            }
        }
        i = i + 1;
    }
    assert(id_set(out@) =~= id_set(orig).remove(app@));
    *v = out;
}

/// Adds `app` to `v`.
fn add_id(v: &mut Vec<AppId>, app: AppId)
    ensures
        id_set(final(v)@) == id_set(old(v)@).insert(app@),
{
    let ghost orig = v@;
    v.push(app);
    assert forall|t: Seq<char>| #[trigger] id_set(v@).contains(t) <==> id_set(orig).insert(app@).contains(t) by {
        if id_set(v@).contains(t) {
            let k = choose|k: int| 0 <= k < v@.len() && #[trigger] v@[k]@ == t;
            if k < orig.len() {
                assert(orig[k]@ == t);
            }
        }
        if id_set(orig).contains(t) {
            let k = choose|k: int| 0 <= k < orig.len() && #[trigger] orig[k]@ == t;
            assert(v@[k]@ == t);
        }
        if t == app@ {
            assert(v@[orig.len() as int]@ == t);
        }
    }
    assert(id_set(v@) =~= id_set(orig).insert(app@));
}

impl WindowBook {
    /// Nothing launched, nothing shown.
    pub fn new() -> (r: Self)
        ensures
            r@.focused is None,
            r@.mapped == Set::<Seq<char>>::empty(),
            r@.shelved == Set::<Seq<char>>::empty(),
            r@.launched == Set::<Seq<char>>::empty(),
    {
        let r = WindowBook { focused: None, mapped: Vec::new(), shelved: Vec::new(), launched: Vec::new() };
        assert(r@.mapped =~= Set::<Seq<char>>::empty());
        assert(r@.shelved =~= Set::<Seq<char>>::empty());
        assert(r@.launched =~= Set::<Seq<char>>::empty());
        r
    }

    /// The app in front.
    pub fn focused_app(&self) -> (r: Option<AppId>)
        ensures
            match r {
                Some(a) => self@.focused == Some(a@),
                None => self@.focused is None,
            },
    {
        self.focused
    }

    /// Whether `app` has a launched process.
    pub fn is_launched(&self, app: AppId) -> (r: bool)
        ensures
            r == self@.launched.contains(app@),
    {
        index_in(&self.launched, app).is_some()
    }

    /// Goes home; returns the app whose window must be unmapped and shelved.
    pub fn go_home(&mut self) -> (r: Option<AppId>)
        ensures
            final(self)@ == home_spec(old(self)@),
            match r {
                Some(a) => old(self)@.focused == Some(a@) && old(self)@.mapped.contains(a@),
                None => !(old(self)@.focused matches Some(f) && old(self)@.mapped.contains(f)),
            },
    {
        let focused = self.focused;
        self.focused = None;
        match focused {
            Some(a) => {
                if index_in(&self.mapped, a).is_some() {
                    remove_all(&mut self.mapped, a);
                    add_id(&mut self.shelved, a);
                    Some(a)
                } else {
                    None
                }
            },
            None => None,
        }
    }

    /// Decides how to bring `app` to the front, and records the outcome
    /// except for a spawn, which [`WindowBook::note_launched`] records once
    /// the process is running.
    pub fn launch_or_focus(&mut self, app: AppId) -> (r: LaunchPlan)
        ensures
            final(self)@ == launch_spec(old(self)@, app@),
            ({
                let b0 = if old(self)@.focused matches Some(c) && c != app@ {
                    home_spec(old(self)@)
                } else {
                    old(self)@
                };
                &&& match r.shelve_first {
                    Some(s) => old(self)@.focused == Some(s@) && s@ != app@ && old(self)@.mapped.contains(s@),
                    None => !(old(self)@.focused matches Some(c) && c != app@ && old(self)@.mapped.contains(c)),
                }
                &&& match r.step {
                    WindowStep::Focus(a) => a@ == app@ && b0.mapped.contains(app@),
                    WindowStep::Unshelve(a) => a@ == app@ && !b0.mapped.contains(app@) && b0.shelved.contains(app@),
                    WindowStep::Spawn(a) => a@ == app@ && !b0.mapped.contains(app@) && !b0.shelved.contains(app@)
                        && !b0.launched.contains(app@),
                    WindowStep::Wait => !b0.mapped.contains(app@) && !b0.shelved.contains(app@)
                        && b0.launched.contains(app@),
                }
            }),
    {
        let mut shelve_first: Option<AppId> = None;
        if let Some(current) = self.focused {
            if !(current == app) {
                shelve_first = self.go_home();
            }
        }
        if index_in(&self.mapped, app).is_some() {
            self.focused = Some(app);
            return LaunchPlan { shelve_first, step: WindowStep::Focus(app) };
        }
        if index_in(&self.shelved, app).is_some() {
            remove_all(&mut self.shelved, app);
            add_id(&mut self.mapped, app);
            self.focused = Some(app);
            return LaunchPlan { shelve_first, step: WindowStep::Unshelve(app) };
        }
        if index_in(&self.launched, app).is_some() {
            return LaunchPlan { shelve_first, step: WindowStep::Wait };
        }
        LaunchPlan { shelve_first, step: WindowStep::Spawn(app) }
    }

    /// Records that `app`'s process is running.
    pub fn note_launched(&mut self, app: AppId)
        ensures
            final(self)@ == (BookView { launched: old(self)@.launched.insert(app@), ..old(self)@ }),
    {
        add_id(&mut self.launched, app);
    }

    /// Records that `app`'s process has exited.
    pub fn note_exited(&mut self, app: AppId)
        ensures
            final(self)@ == (BookView { launched: old(self)@.launched.remove(app@), ..old(self)@ }),
    {
        remove_all(&mut self.launched, app);
    }

    /// Records that `app`'s window was mapped and focused.
    pub fn note_mapped(&mut self, app: AppId)
        ensures
            final(self)@ == (BookView { focused: Some(app@), mapped: old(self)@.mapped.insert(app@), ..old(self)@ }),
    {
        add_id(&mut self.mapped, app);
        self.focused = Some(app);
    }

    /// Records that `app`'s window is gone.
    pub fn note_unmapped(&mut self, app: AppId)
        ensures
            final(self)@.mapped == old(self)@.mapped.remove(app@),
            final(self)@.shelved == old(self)@.shelved.remove(app@),
            final(self)@.launched == old(self)@.launched,
            final(self)@.focused == (if old(self)@.focused == Some(app@) {
                None
            } else {
                old(self)@.focused
            }),
    {
        remove_all(&mut self.mapped, app);
        remove_all(&mut self.shelved, app);
        if let Some(f) = self.focused {
            if f == app {
                self.focused = None;
            }
        }
    }
}

/// Going home leaves no app in front, and the window that was in front can
/// be brought back: a launch request for that app then unshelves it.
pub proof fn lemma_home_then_relaunch_resumes(b: BookView, a: Seq<char>)
    requires
        b.focused == Some(a),
        b.mapped.contains(a),
    ensures
        home_spec(b).focused is None,
        home_spec(b).shelved.contains(a),
        !home_spec(b).mapped.contains(a),
        launch_spec(home_spec(b), a).focused == Some(a),
        launch_spec(home_spec(b), a).mapped.contains(a),
        !launch_spec(home_spec(b), a).shelved.contains(a),
{
}

/// Switching from one app to another shelves the first, so its window is
/// kept rather than lost.
pub proof fn lemma_switch_keeps_previous_window(b: BookView, a: Seq<char>, c: Seq<char>)
    requires
        b.focused == Some(a),
        b.mapped.contains(a),
        a != c,
    ensures
        launch_spec(b, c).shelved.contains(a) || launch_spec(b, c).mapped.contains(a),
        launch_spec(b, c).focused != Some(a),
{
}

/// The bookkeeping is consistent: no app has a window both mapped and
/// shelved, and the app in front has a mapped window.
pub open spec fn book_consistent(b: BookView) -> bool {
    &&& b.mapped.disjoint(b.shelved)
    &&& (b.focused matches Some(a) ==> b.mapped.contains(a))
}

/// Going home, a launch-or-focus request, a process starting or exiting, a
/// window going away, and a window mapping for an app with no shelved
/// window all keep the bookkeeping consistent.
pub proof fn lemma_books_stay_consistent(b: BookView, a: Seq<char>)
    requires
        book_consistent(b),
    ensures
        book_consistent(home_spec(b)),
        book_consistent(launch_spec(b, a)),
        book_consistent(BookView { launched: b.launched.insert(a), ..b }),
        book_consistent(BookView { launched: b.launched.remove(a), ..b }),
        book_consistent(
            BookView {
                focused: if b.focused == Some(a) {
                    None
                } else {
                    b.focused
                },
                mapped: b.mapped.remove(a),
                shelved: b.shelved.remove(a),
                ..b
            },
        ),
        !b.shelved.contains(a) ==> book_consistent(
            BookView { focused: Some(a), mapped: b.mapped.insert(a), ..b },
        ),
{
    let h = home_spec(b);
    assert(book_consistent(h));
    let b0 = if b.focused matches Some(c) && c != a {
        h
    } else {
        b
    };
    assert(book_consistent(b0));
}

/// A launch request for the app already in front changes nothing.
pub proof fn lemma_launch_focused_is_idempotent(b: BookView, a: Seq<char>)
    requires
        b.focused == Some(a),
        b.mapped.contains(a),
    ensures
        launch_spec(b, a) == b,
{
}

/// What a control request makes the compositor do: launch-or-focus an
/// app, go home, or nothing (the switcher); each is answered `ok`.
pub enum ControlStep {
    Launch(AppId),
    Home,
    Nothing,
}

/// The step for a control request.
pub fn control_step(request: ControlRequest) -> (r: ControlStep)
    ensures
        match request {
            ControlRequest::Launch { app_id } => r matches ControlStep::Launch(a) && a@ == app_id@,
            ControlRequest::Home => r is Home,
            ControlRequest::Switcher => r is Nothing,
        },
{
    match request {
        ControlRequest::Launch { app_id } => ControlStep::Launch(app_id),
        ControlRequest::Home => ControlStep::Home,
        ControlRequest::Switcher => ControlStep::Nothing,
    }
}


/// Where a touch event goes.
#[derive(Clone, Copy, Debug, PartialEq, Eq, Structural)]
pub enum TouchRoute {
    /// The touch is outside the shown content; `shell_left` when the shell
    /// had the touch and must be told the pointer left.
    Outside { shell_left: bool },
    /// To the shell as a pointer move.
    ShellMove,
    /// To the app under the touch as a pointer motion (the shell is told the
    /// pointer left), with a button press on touch-down.
    AppMotion { press: bool },
    /// The end of a shell touch: a tap where it ended, or the pointer leaving.
    ShellEnd { tap: bool },
    /// The end of an app touch: a button release.
    AppRelease,
}

/// Decides where touch events go. A touch that starts on the shell stays
/// with the shell until it ends.
#[derive(Clone, Copy, Debug, PartialEq, Eq, Structural)]
pub struct TouchRouter {
    pub shell_touch_active: bool,
}

/// The route of a touch event and whether the shell holds the touch after
/// it. `has_position`: the touch maps into the content; `shell_captures`:
/// the shell takes the point; `has_shell_point`: the point maps into the
/// shell.
pub open spec fn route_spec(
    active: bool,
    phase: crate::touch::TouchPhase,
    has_position: bool,
    shell_captures: bool,
    has_shell_point: bool,
) -> (TouchRoute, bool) {
    match phase {
        crate::touch::TouchPhase::Up => if active {
            (TouchRoute::ShellEnd { tap: has_position && has_shell_point }, false)
        } else {
            (TouchRoute::AppRelease, false)
        },
        _ => if !has_position {
            (TouchRoute::Outside { shell_left: active }, false)
        } else if active || shell_captures {
            (TouchRoute::ShellMove, active || phase == crate::touch::TouchPhase::Down)
        } else {
            (TouchRoute::AppMotion { press: phase == crate::touch::TouchPhase::Down }, false)
        },
    }
}

impl TouchRouter {
    /// No touch in progress.
    pub fn new() -> (r: Self)
        ensures
            !r.shell_touch_active,
    {
        TouchRouter { shell_touch_active: false }
    }

    /// Routes one touch event.
    pub fn route(
        &mut self,
        phase: crate::touch::TouchPhase,
        has_position: bool,
        shell_captures: bool,
        has_shell_point: bool,
    ) -> (r: TouchRoute)
        ensures
            (r, final(self).shell_touch_active) == route_spec(
                old(self).shell_touch_active,
                phase,
                has_position,
                shell_captures,
                has_shell_point,
            ),
    {
        match phase {
            crate::touch::TouchPhase::Up => {
                let was_active = self.shell_touch_active;
                self.shell_touch_active = false;
                if was_active {
                    TouchRoute::ShellEnd { tap: has_position && has_shell_point }
                } else {
                    TouchRoute::AppRelease
                }
            },
            _ => {
                let down = match phase {
                    crate::touch::TouchPhase::Down => true,
                    _ => false,
                };
                if !has_position {
                    let was_active = self.shell_touch_active;
                    self.shell_touch_active = false;
                    TouchRoute::Outside { shell_left: was_active }
                } else if self.shell_touch_active || shell_captures {
                    if down {
                        self.shell_touch_active = true;
                    }
                    TouchRoute::ShellMove
                } else {
                    self.shell_touch_active = false;
                    TouchRoute::AppMotion { press: down }
                }
            },
        }
    }
}

/// A touch that goes down on the shell stays with the shell: its moves
/// inside the content go to the shell wherever they are, and its end is a
/// shell tap or leave, never an app release.
pub proof fn lemma_shell_touch_is_captured(
    has_shell_point: bool,
    moves: Seq<(bool, bool)>,
    end_position: bool,
    end_shell_point: bool,
)
    requires
        forall|i: int| 0 <= i < moves.len() ==> (#[trigger] moves[i]).0,
    ensures
        ({
            let (r0, a0) = route_spec(false, crate::touch::TouchPhase::Down, true, true, has_shell_point);
            &&& r0 == TouchRoute::ShellMove
            &&& a0
            &&& forall|i: int| 0 <= i < moves.len() ==> route_spec(
                true,
                crate::touch::TouchPhase::Move,
                true,
                #[trigger] moves[i].1,
                true,
            ) == (TouchRoute::ShellMove, true)
            &&& route_spec(true, crate::touch::TouchPhase::Up, end_position, false, end_shell_point).0
                == TouchRoute::ShellEnd { tap: end_position && end_shell_point }
        }),
{
}

/// The next touch-signal counter (saturating) and the token written for it.
pub fn next_touch_signal(counter: u64) -> (r: (u64, String))
    ensures
        r.0 == (if counter == u64::MAX { u64::MAX } else { (counter + 1) as u64 }),
        r.1@ == crate::text::decimal_text(r.0 as nat),
{
    let next = counter.saturating_add(1);
    let mut token = String::new();
    crate::text::append_decimal(&mut token, next);
    assert(token@ =~= crate::text::decimal_text(next as nat));
    (next, token)
}

/// The keys the desktop shell window reacts to.
#[derive(Clone, Copy, Debug, PartialEq, Eq, Structural)]
pub enum DesktopKey {
    ArrowLeft,
    ArrowRight,
    ArrowUp,
    ArrowDown,
    Enter,
    Space,
    Tab,
    Escape,
    Home,
    Other,
}

/// The shell navigation a key press in the desktop shell window asks for.
pub fn desktop_nav(key: DesktopKey) -> (r: Option<NavAction>)
    ensures
        r == (match key {
            DesktopKey::ArrowLeft => Some(NavAction::Left),
            DesktopKey::ArrowRight => Some(NavAction::Right),
            DesktopKey::ArrowUp => Some(NavAction::Up),
            DesktopKey::ArrowDown => Some(NavAction::Down),
            DesktopKey::Enter | DesktopKey::Space => Some(NavAction::Activate),
            DesktopKey::Tab => Some(NavAction::Next),
            DesktopKey::Escape | DesktopKey::Home => Some(NavAction::Home),
            DesktopKey::Other => None::<NavAction>,
        }),
{
    match key {
        DesktopKey::ArrowLeft => Some(NavAction::Left),
        DesktopKey::ArrowRight => Some(NavAction::Right),
        DesktopKey::ArrowUp => Some(NavAction::Up),
        DesktopKey::ArrowDown => Some(NavAction::Down),
        DesktopKey::Enter | DesktopKey::Space => Some(NavAction::Activate),
        DesktopKey::Tab => Some(NavAction::Next),
        DesktopKey::Escape | DesktopKey::Home => Some(NavAction::Home),
        DesktopKey::Other => None,
    }
}

/// Where `x` goes in `sorted`: after every id not greater than it.
pub open spec fn id_pos(sorted: Seq<Seq<char>>, x: Seq<char>) -> int
    decreases sorted.len(),
{
    if sorted.len() == 0 {
        0
    } else if text_lt(x, sorted.last()) {
        id_pos(sorted.drop_last(), x)
    } else {
        sorted.len() as int
    }
}

/// The ids of `ids` in character order, each once.
pub open spec fn sorted_unique(ids: Seq<Seq<char>>) -> Seq<Seq<char>>
    decreases ids.len(),
{
    if ids.len() == 0 {
        Seq::empty()
    } else {
        let s = sorted_unique(ids.drop_last());
        let x = ids.last();
        if s.contains(x) {
            s
        } else {
            s.insert(id_pos(s, x), x)
        }
    }
}

/// Ids in strictly increasing character order.
pub open spec fn strictly_sorted(s: Seq<Seq<char>>) -> bool {
    forall|i: int, j: int| 0 <= i < j < s.len() ==> text_lt(#[trigger] s[i], #[trigger] s[j])
}

proof fn lemma_id_pos(sorted: Seq<Seq<char>>, x: Seq<char>)
    requires
        strictly_sorted(sorted),
    ensures
        0 <= id_pos(sorted, x) <= sorted.len(),
        forall|k: int| 0 <= k < id_pos(sorted, x) ==> !text_lt(x, #[trigger] sorted[k]),
        forall|k: int| id_pos(sorted, x) <= k < sorted.len() ==> text_lt(x, #[trigger] sorted[k]),
    decreases sorted.len(),
{
    if sorted.len() > 0 {
        let last = sorted.last();
        if text_lt(x, last) {
            let front = sorted.drop_last();
            assert forall|i: int, j: int| 0 <= i < j < front.len() implies text_lt(#[trigger] front[i], #[trigger] front[j]) by {
                assert(front[i] == sorted[i] && front[j] == sorted[j]);
            }
            lemma_id_pos(front, x);
            let p = id_pos(front, x);
            assert forall|k: int| 0 <= k < p implies !text_lt(x, #[trigger] sorted[k]) by {
                assert(sorted[k] == front[k]);
            }
            assert forall|k: int| p <= k < sorted.len() implies text_lt(x, #[trigger] sorted[k]) by {
                if k < sorted.len() - 1 {
                    assert(sorted[k] == front[k]);
                }
            }
        } else {
            assert forall|k: int| 0 <= k < sorted.len() implies !text_lt(x, #[trigger] sorted[k]) by {
                if k < sorted.len() - 1 {
                    assert(text_lt(sorted[k], sorted[sorted.len() - 1]));
                    lemma_text_lt_transitive(x, sorted[k], last);
                }
            }
        }
    }
}

/// The sorted id list of a state report is in strictly increasing order
/// (so names no app twice) and names exactly the apps of the list it was
/// made from.
pub proof fn lemma_sorted_ids(ids: Seq<Seq<char>>)
    ensures
        strictly_sorted(sorted_unique(ids)),
        forall|x: Seq<char>| #[trigger] sorted_unique(ids).contains(x) <==> ids.contains(x),
    decreases ids.len(),
{
    if ids.len() > 0 {
        let front = ids.drop_last();
        let x = ids.last();
        lemma_sorted_ids(front);
        let s = sorted_unique(front);
        assert forall|y: Seq<char>| ids.contains(y) <==> front.contains(y) || y == x by {
            if ids.contains(y) {
                let k = choose|k: int| 0 <= k < ids.len() && ids[k] == y;
                if k < ids.len() - 1 {
                    assert(front[k] == y);
                }
            }
            if front.contains(y) {
                let k = choose|k: int| 0 <= k < front.len() && front[k] == y;
                assert(ids[k] == y);
            }
            if y == x {
                assert(ids[ids.len() - 1] == y);
            }
        }
        if !s.contains(x) {
            lemma_id_pos(s, x);
            let p = id_pos(s, x);
            let r = s.insert(p, x);
            assert forall|k: int| 0 <= k < p implies text_lt(#[trigger] s[k], x) by {
                lemma_text_lt_total(s[k], x);
                if s[k] == x {
                    assert(s.contains(x));
                }
            }
            assert forall|i: int, j: int| 0 <= i < j < r.len() implies text_lt(#[trigger] r[i], #[trigger] r[j]) by {
                if j < p {
                    assert(r[i] == s[i] && r[j] == s[j]);
                } else if j == p {
                    assert(r[i] == s[i] && r[j] == x);
                } else if i < p {
                    assert(r[i] == s[i] && r[j] == s[j - 1]);
                } else if i == p {
                    assert(r[i] == x && r[j] == s[j - 1]);
                } else {
                    assert(r[i] == s[i - 1] && r[j] == s[j - 1]);
                }
            }
            assert forall|y: Seq<char>| #[trigger] r.contains(y) <==> s.contains(y) || y == x by {
                if r.contains(y) {
                    let k = choose|k: int| 0 <= k < r.len() && r[k] == y;
                    if k < p {
                        assert(s[k] == y);
                    } else if k > p {
                        assert(s[k - 1] == y);
                    }
                }
                if s.contains(y) {
                    let k = choose|k: int| 0 <= k < s.len() && s[k] == y;
                    if k < p {
                        assert(r[k] == y);
                    } else {
                        assert(r[k + 1] == y);
                    }
                }
                if y == x {
                    assert(r[p] == x);
                }
            }
        }
    }
}

/// `parts` separated by commas.
pub open spec fn comma_joined(parts: Seq<Seq<char>>) -> Seq<char>
    decreases parts.len(),
{
    if parts.len() == 0 {
        Seq::empty()
    } else if parts.len() == 1 {
        parts[0]
    } else {
        comma_joined(parts.drop_last()) + ","@ + parts.last()
    }
}

/// The texts of a list of ids.
pub open spec fn id_texts(v: Seq<AppId>) -> Seq<Seq<char>> {
    v.map_values(|a: AppId| a@)
}

/// The ids in character order, each once, separated by commas.
pub fn sorted_id_list(ids: &Vec<AppId>) -> (r: String)
    ensures
        r@ == comma_joined(sorted_unique(id_texts(ids@))),
{
    let ghost all = id_texts(ids@);
    let mut sorted: Vec<AppId> = Vec::new();
    let mut k: usize = 0;
    assert(all.take(0) =~= Seq::<Seq<char>>::empty());
    assert(id_texts(sorted@) =~= Seq::<Seq<char>>::empty());
    while k < ids.len()
        invariant
            0 <= k <= ids@.len(),
            all == id_texts(ids@),
            id_texts(sorted@) == sorted_unique(all.take(k as int)),
        decreases ids@.len() - k,
    {
        let x = ids[k];
        let ghost s = id_texts(sorted@);
        assert(all.take(k + 1).drop_last() =~= all.take(k as int));
        assert(all.take(k + 1).last() == x@);
        match index_in(&sorted, x) {
            Some(j) => {
                assert(s[j as int] == x@);
                assert(s.contains(x@));
            },
            None => {
                assert(!s.contains(x@)) by {
                    if s.contains(x@) {
                        let j = choose|j: int| 0 <= j < s.len() && s[j] == x@;
                        assert(id_set(sorted@).contains(x@)) by {
                            assert(sorted@[j]@ == x@);
                        }
                    }
                }
                let mut p: usize = sorted.len();
                assert(s.take(p as int) =~= s);
                while p > 0 && str_lt(x.as_str(), sorted[p - 1].as_str())
                    invariant
                        0 <= p <= sorted@.len(),
                        s == id_texts(sorted@),
                        id_pos(s.take(p as int), x@) == id_pos(s, x@),
                    decreases p,
                {
                    assert(s.take(p as int).drop_last() =~= s.take(p - 1));
                    assert(s.take(p as int).last() == sorted@[p - 1]@);
                    p = p - 1;
                }
                assert(id_pos(s.take(p as int), x@) == p) by {
                    if p > 0 {
                        assert(s.take(p as int).last() == sorted@[p - 1]@);
                    }
                }
                sorted.insert(p, x);
                assert(id_texts(sorted@) =~= s.insert(p as int, x@));
            },
        }
        k = k + 1;
    }
    assert(all.take(ids@.len() as int) =~= all);
    let ghost parts = id_texts(sorted@);
    let mut out = String::new();
    let mut i: usize = 0;
    assert(parts.take(0) =~= Seq::<Seq<char>>::empty());
    while i < sorted.len()
        invariant
            0 <= i <= sorted@.len(),
            parts == id_texts(sorted@),
            out@ == comma_joined(parts.take(i as int)),
        decreases sorted@.len() - i,
    {
        assert(parts.take(i + 1).drop_last() =~= parts.take(i as int));
        assert(parts.take(i + 1).last() == sorted@[i as int]@);
        if i > 0 {
            out.append(",");
        }
        out.append(sorted[i].as_str());
        proof {
            if i == 0 {
                assert(parts.take(1)[0] == sorted@[0]@);
            }
        }
        assert(out@ =~= comma_joined(parts.take(i + 1)));
        i = i + 1;
    }
    assert(parts.take(sorted@.len() as int) =~= parts);
    out
}

/// The compositor's answer to a state query: the app in front, the
/// mapped, launched and shelved apps (sorted, comma-separated), the number
/// of windows, then `extra_lines`.
pub fn state_report(
    focused: Option<AppId>,
    mapped: &Vec<AppId>,
    launched: &Vec<AppId>,
    shelved: &Vec<AppId>,
    windows: usize,
    extra_lines: &str,
) -> (r: String)
    ensures
        r@ == "focused="@ + (match focused {
            Some(a) => a@,
            None => Seq::<char>::empty(),
        }) + "\nmapped="@ + comma_joined(sorted_unique(id_texts(mapped@))) + "\nlaunched="@ + comma_joined(
            sorted_unique(id_texts(launched@)),
        ) + "\nshelved="@ + comma_joined(sorted_unique(id_texts(shelved@))) + "\nwindows="@ + crate::text::decimal_text(
            windows as nat,
        ) + "\n"@ + extra_lines@,
{
    let mut out = String::from_str("focused=");
    match focused {
        Some(a) => out.append(a.as_str()),
        None => out.append(""),
    }
    out.append("\nmapped=");
    let m = sorted_id_list(mapped);
    out.append(m.as_str());
    out.append("\nlaunched=");
    let l = sorted_id_list(launched);
    out.append(l.as_str());
    out.append("\nshelved=");
    let s = sorted_id_list(shelved);
    out.append(s.as_str());
    out.append("\nwindows=");
    crate::text::append_decimal(&mut out, windows as u64);
    out.append("\n");
    out.append(extra_lines);
    proof {
        reveal_strlit("");
    }
    out
}
} // verus!
