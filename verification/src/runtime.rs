//! Messages between the document host and its script runtime, and the
//! decisions the host makes on them: which render to apply, what a session
//! reply means, and how its settings are read.
use crate::text::{parse_u64, parse_u32, parse_int_spec, str_equal, trim, trim_spec};
use vstd::prelude::*;
use vstd::string::*;

verus! {

/// A message from the host to the script runtime.
#[derive(Debug)]
pub enum HostMessage {
    /// The element with the given action was clicked.
    Click { action: String },
}

impl HostMessage {
    /// A click on `action`.
    pub fn click(action: String) -> (r: Self)
        ensures
            r matches HostMessage::Click { action: a } && a@ == action@,
    {
        HostMessage::Click { action }
    }
}

/// A full render from the script runtime.
#[derive(Debug)]
pub struct RenderPayload {
    pub css: String,
    pub html: String,
}

/// A message from the script runtime.
#[derive(Debug)]
pub enum RuntimeMessage {
    Log { message: String },
    Render(RenderPayload),
}

/// What the host learns from the runtime on one poll.
#[derive(Debug)]
pub enum RuntimeUpdate {
    Render(RenderPayload),
    Exited(String),
}

/// The contents of a render, as views.
pub open spec fn render_view(r: RenderPayload) -> (Seq<char>, Seq<char>) {
    (r.css@, r.html@)
}

/// The last render among `ms`, if any.
pub open spec fn last_render(ms: Seq<RuntimeMessage>) -> Option<(Seq<char>, Seq<char>)>
    decreases ms.len(),
{
    if ms.len() == 0 {
        None
    } else {
        match ms.last() {
            RuntimeMessage::Render(r) => Some(render_view(r)),
            RuntimeMessage::Log { .. } => last_render(ms.drop_last()),
        }
    }
}

/// The non-empty log lines among `ms`, in order.
pub open spec fn log_lines(ms: Seq<RuntimeMessage>) -> Seq<Seq<char>>
    decreases ms.len(),
{
    if ms.len() == 0 {
        Seq::empty()
    } else {
        let prev = log_lines(ms.drop_last());
        match ms.last() {
            RuntimeMessage::Log { message } => if message@.len() > 0 {
                prev.push(message@)
            } else {
                prev
            },
            RuntimeMessage::Render(_) => prev,
        }
    }
}

fn copy_render(r: &RenderPayload) -> (c: RenderPayload)
    ensures
        render_view(c) == render_view(*r),
{
    RenderPayload { css: r.css.clone(), html: r.html.clone() }
}

/// Sorts the messages drained from the runtime: the last render wins, and
/// the non-empty log lines are returned in order for printing.
pub fn drain_messages(messages: &Vec<RuntimeMessage>) -> (r: (Option<RenderPayload>, Vec<String>))
    ensures
        match r.0 {
            Some(p) => last_render(messages@) == Some(render_view(p)),
            None => last_render(messages@) is None,
        },
        r.1@.map_values(|s: String| s@) == log_lines(messages@),
{
    let mut latest: Option<RenderPayload> = None;
    let mut logs: Vec<String> = Vec::new();
    let mut i: usize = 0;
    assert(messages@.take(0) =~= Seq::<RuntimeMessage>::empty());
    while i < messages.len()
        invariant
            0 <= i <= messages@.len(),
            match latest {
                Some(p) => last_render(messages@.take(i as int)) == Some(render_view(p)),
                None => last_render(messages@.take(i as int)) is None,
            },
            logs@.map_values(|s: String| s@) == log_lines(messages@.take(i as int)),
        decreases messages@.len() - i,
    {
        assert(messages@.take(i + 1).drop_last() =~= messages@.take(i as int));
        assert(messages@.take(i + 1).last() == messages@[i as int]);
        match &messages[i] {
            RuntimeMessage::Log { message } => {
                if message.as_str().unicode_len() > 0 {
                    logs.push(message.clone());
                    assert(logs@.map_values(|s: String| s@) =~= log_lines(messages@.take(i as int)).push(
                        message@,
                    ));
                }
            },
            RuntimeMessage::Render(render) => {
                latest = Some(copy_render(render));
            },
        }
        i = i + 1;
    }
    assert(messages@.take(messages@.len() as int) =~= messages@);
    (latest, logs)
}

/// Why the runtime stopped: its last line of error output, else
/// `default_reason`.
pub fn exit_reason(last_stderr: Option<String>, default_reason: &str) -> (r: String)
    ensures
        r@ == (match last_stderr {
            Some(s) => s@,
            None => default_reason@,
        }),
{
    match last_stderr {
        Some(s) => s,
        None => String::from_str(default_reason),
    }
}

/// What waiting for the runtime's first render does with one message.
#[derive(Debug)]
pub enum FirstRenderStep {
    /// Print this log line and keep waiting.
    Print(String),
    /// An empty log line: keep waiting.
    Skip,
    /// The first render has arrived: stop waiting with it.
    Rendered(RenderPayload),
}

/// The step for `message` while waiting for the first render: a non-empty
/// log line is printed, an empty one skipped, and a render ends the wait.
pub fn first_render_step(message: RuntimeMessage) -> (r: FirstRenderStep)
    ensures
        match message {
            RuntimeMessage::Log { message: m } => if m@.len() > 0 {
                r matches FirstRenderStep::Print(p) && p@ == m@
            } else {
                r is Skip
            },
            RuntimeMessage::Render(p) => r matches FirstRenderStep::Rendered(q) && render_view(q) == render_view(p),
        },
{
    match message {
        RuntimeMessage::Log { message } => {
            if message.as_str().unicode_len() > 0 {
                FirstRenderStep::Print(message)
            } else {
                FirstRenderStep::Skip
            }
        },
        RuntimeMessage::Render(p) => FirstRenderStep::Rendered(p),
    }
}

/// The error when the messages stop before the first render: the runtime
/// exited (with `exit_status`, its description) and why, else the error
/// `wait_error` that ended the wait.
pub fn first_render_failure(exit_status: Option<String>, last_stderr: Option<String>, wait_error: String) -> (r: String)
    ensures
        r@ == (match exit_status {
            Some(status) => "runtime exited before first render: "@ + (match last_stderr {
                Some(s) => s@,
                None => "the Deno runtime exited: "@ + status@,
            }),
            None => "failed waiting for Deno render: "@ + wait_error@,
        }),
{
    match exit_status {
        Some(status) => {
            let mut default_reason = String::from_str("the Deno runtime exited: ");
            default_reason.append(status.as_str());
            let reason = exit_reason(last_stderr, default_reason.as_str());
            let mut r = String::from_str("runtime exited before first render: ");
            r.append(reason.as_str());
            r
        },
        None => {
            let mut r = String::from_str("failed waiting for Deno render: ");
            r.append(wait_error.as_str());
            r
        },
    }
}

/// The document a runtime session renders.
#[derive(Debug)]
pub struct RuntimeDocumentPayload {
    pub html: String,
    pub css: Option<String>,
}

/// A text selection carried by a runtime event.
#[derive(Debug)]
pub struct RuntimeSelectionEvent {
    pub start: Option<u32>,
    pub end: Option<u32>,
    pub direction: Option<String>,
}

/// A key press carried by a runtime event.
#[derive(Debug)]
pub struct RuntimeKeyboardEvent {
    pub key: Option<String>,
    pub code: Option<String>,
    pub alt_key: Option<bool>,
    pub ctrl_key: Option<bool>,
    pub meta_key: Option<bool>,
    pub shift_key: Option<bool>,
}

/// The three requests a runtime session answers.
#[derive(Clone, Copy, Debug, PartialEq, Eq, Structural)]
pub enum SessionRequestKind {
    Render,
    RenderIfDirty,
    Dispatch,
}

/// The name a request is logged under.
pub fn session_request_name(request: SessionRequestKind) -> (r: &'static str)
    ensures
        r@ == (match request {
            SessionRequestKind::Render => "render"@,
            SessionRequestKind::RenderIfDirty => "render_if_dirty"@,
            SessionRequestKind::Dispatch => "dispatch"@,
        }),
{
    match request {
        SessionRequestKind::Render => "render",
        SessionRequestKind::RenderIfDirty => "render_if_dirty",
        SessionRequestKind::Dispatch => "dispatch",
    }
}

/// A runtime session's reply.
#[derive(Debug)]
pub enum SessionResponse {
    Updated { payload: RuntimeDocumentPayload },
    NoUpdate,
    Failed { message: String },
}

/// The error text for a missing update.
pub open spec fn no_update_error(request: SessionRequestKind) -> Seq<char> {
    match request {
        SessionRequestKind::Dispatch => "runtime host returned no update for dispatch"@,
        _ => "runtime host returned no update for render"@,
    }
}

/// The document a render or dispatch request yields: the reply's payload,
/// its error message, or an error when the host sent no update.
pub fn expect_payload(response: SessionResponse, request: SessionRequestKind) -> (r: Result<
    RuntimeDocumentPayload,
    String,
>)
    ensures
        match response {
            SessionResponse::Updated { payload } => r matches Ok(p) && p == payload,
            SessionResponse::NoUpdate => r matches Err(e) && e@ == no_update_error(request),
            SessionResponse::Failed { message } => r matches Err(e) && e == message,
        },
{
    match response {
        SessionResponse::Updated { payload } => Ok(payload),
        SessionResponse::NoUpdate => match request {
            SessionRequestKind::Dispatch => Err(
                String::from_str("runtime host returned no update for dispatch"),
            ),
            _ => Err(String::from_str("runtime host returned no update for render")),
        },
        SessionResponse::Failed { message } => Err(message),
    }
}

/// The document a render-if-dirty request yields: `None` when nothing
/// changed.
pub fn payload_if_dirty(response: SessionResponse) -> (r: Result<Option<RuntimeDocumentPayload>, String>)
    ensures
        match response {
            SessionResponse::Updated { payload } => r matches Ok(Some(p)) && p == payload,
            SessionResponse::NoUpdate => r matches Ok(None),
            SessionResponse::Failed { message } => r matches Err(e) && e == message,
        },
{
    match response {
        SessionResponse::Updated { payload } => Ok(Some(payload)),
        SessionResponse::NoUpdate => Ok(None),
        SessionResponse::Failed { message } => Err(message),
    }
}

/// The script host binary setting.
pub const RUNTIME_HOST_BINARY_PATH_ENV: &'static str = "SHADOW_RUNTIME_HOST_BINARY_PATH";

/// The app bundle setting.
pub const RUNTIME_APP_BUNDLE_PATH_ENV: &'static str = "SHADOW_RUNTIME_APP_BUNDLE_PATH";

/// Whether a script session is started, from the host binary and bundle
/// settings: with both, the session runs that host on that bundle; with
/// neither, there is none; with one alone, that is an error.
pub fn session_endpoints(host_binary: Option<String>, bundle: Option<String>) -> (r: Result<
    Option<(String, String)>,
    String,
>)
    ensures
        match (host_binary, bundle) {
            (None, None) => r matches Ok(None),
            (Some(h), Some(b)) => r matches Ok(Some((rh, rb))) && rh == h && rb == b,
            _ => r matches Err(e) && e@ == "runtime session requires both "@ + RUNTIME_HOST_BINARY_PATH_ENV@
                + " and "@ + RUNTIME_APP_BUNDLE_PATH_ENV@,
        },
{
    match (host_binary, bundle) {
        (None, None) => Ok(None),
        (Some(h), Some(b)) => Ok(Some((h, b))),
        _ => {
            let mut e = String::from_str("runtime session requires both ");
            e.append(RUNTIME_HOST_BINARY_PATH_ENV);
            e.append(" and ");
            e.append(RUNTIME_APP_BUNDLE_PATH_ENV);
            Err(e)
        },
    }
}

/// Which document the demo client shows.
#[derive(Clone, Copy, Debug, PartialEq, Eq, Structural)]
pub enum DemoMode {
    Static,
    Runtime,
}

impl DemoMode {
    /// The mode named by the demo mode setting: `runtime`, else static.
    pub fn from_setting(value: Option<&str>) -> (r: Self)
        ensures
            r == (if value matches Some(v) && v@ == "runtime"@ {
                DemoMode::Runtime
            } else {
                DemoMode::Static
            }),
    {
        match value {
            Some(v) => if str_equal(v, "runtime") {
                DemoMode::Runtime
            } else {
                DemoMode::Static
            },
            None => DemoMode::Static,
        }
    }

    /// The window title.
    pub fn title(self) -> (r: &'static str)
        ensures
            r@ == (match self {
                DemoMode::Static => "Shadow Blitz Demo"@,
                DemoMode::Runtime => "Shadow Counter"@,
            }),
    {
        match self {
            DemoMode::Static => "Shadow Blitz Demo",
            DemoMode::Runtime => "Shadow Counter",
        }
    }

    /// The name the mode is logged under.
    pub fn label(self) -> (r: &'static str)
        ensures
            r@ == (match self {
                DemoMode::Static => "static"@,
                DemoMode::Runtime => "runtime"@,
            }),
    {
        match self {
            DemoMode::Static => "static",
            DemoMode::Runtime => "runtime",
        }
    }

    /// The Wayland app id of the window.
    pub fn wayland_app_id(self) -> (r: &'static str)
        ensures
            r@ == (match self {
                DemoMode::Static => "dev.shadow.blitz"@,
                DemoMode::Runtime => crate::app::COUNTER_WAYLAND_APP_ID@,
            }),
    {
        match self {
            DemoMode::Static => "dev.shadow.blitz",
            DemoMode::Runtime => crate::app::COUNTER_WAYLAND_APP_ID,
        }
    }

    /// The Wayland instance name of the window.
    pub fn wayland_instance_name(self) -> (r: &'static str)
        ensures
            r@ == (match self {
                DemoMode::Static => "shadow-blitz-demo"@,
                DemoMode::Runtime => "shadow-counter"@,
            }),
    {
        match self {
            DemoMode::Static => "shadow-blitz-demo",
            DemoMode::Runtime => "shadow-counter",
        }
    }
}

/// How the demo client loads the device's fonts.
#[derive(Clone, Copy, Debug, PartialEq, Eq, Structural)]
pub enum FontMode {
    Disabled,
    Curated,
    Scan,
}

/// The font mode named by the font setting (trimmed): `0`, `false`, `off`
/// or `none` turn loading off; `scan`, `system` or `all` scan the font
/// directories; anything else, or no setting, loads the curated set.
pub fn font_loading_mode(value: Option<&str>) -> (r: FontMode)
    ensures
        r == (match value {
            Some(v) => {
                let t = trim_spec(v@);
                if t == "0"@ || t == "false"@ || t == "off"@ || t == "none"@ {
                    FontMode::Disabled
                } else if t == "scan"@ || t == "system"@ || t == "all"@ {
                    FontMode::Scan
                } else {
                    FontMode::Curated
                }
            },
            None => FontMode::Curated,
        }),
{
    match value {
        Some(v) => {
            let t = trim(v);
            if str_equal(t, "0") || str_equal(t, "false") || str_equal(t, "off") || str_equal(t, "none") {
                FontMode::Disabled
            } else if str_equal(t, "scan") || str_equal(t, "system") || str_equal(t, "all") {
                FontMode::Scan
            } else {
                FontMode::Curated
            }
        },
        None => FontMode::Curated,
    }
}

/// The font directories scanned, in path order; those that exist are used.
pub fn font_dir_candidates() -> (r: Vec<&'static str>)
    ensures
        crate::text::views_of(r@) == seq![
            "/odm/fonts"@,
            "/product/fonts"@,
            "/system/fonts"@,
            "/system/product/fonts"@,
            "/vendor/fonts"@,
        ],
{
    let mut v: Vec<&'static str> = Vec::new();
    v.push("/odm/fonts");
    v.push("/product/fonts");
    v.push("/system/fonts");
    v.push("/system/product/fonts");
    v.push("/vendor/fonts");
    assert(crate::text::views_of(v@) =~= seq![
        "/odm/fonts"@,
        "/product/fonts"@,
        "/system/fonts"@,
        "/system/product/fonts"@,
        "/vendor/fonts"@,
    ]);
    v
}

/// `name` inside directory `dir`: a separator goes between them unless
/// `dir` is empty or already ends with one.
pub open spec fn joined_path(dir: Seq<char>, name: Seq<char>) -> Seq<char> {
    if dir.len() == 0 || dir.last() == '/' {
        dir + name
    } else {
        dir + "/"@ + name
    }
}

/// The files of the curated font set, in the font directory setting (when
/// not empty) or `/system/fonts`; those that exist are loaded.
pub fn curated_font_candidates(font_dir: Option<String>) -> (r: Vec<String>)
    ensures
        ({
            let dir = match font_dir {
                Some(d) => if d@.len() > 0 { d@ } else { "/system/fonts"@ },
                None => "/system/fonts"@,
            };
            r@.map_values(|s: String| s@) == seq![
                joined_path(dir, "DroidSans.ttf"@),
                joined_path(dir, "DroidSans-Bold.ttf"@),
                joined_path(dir, "DroidSansMono.ttf"@),
                joined_path(dir, "NotoColorEmoji.ttf"@),
            ]
        }),
{
    let dir = match font_dir {
        Some(d) => if d.unicode_len() > 0 { d } else { String::from_str("/system/fonts") },
        None => String::from_str("/system/fonts"),
    };
    let mut out: Vec<String> = Vec::new();
    out.push(join_path(dir.as_str(), "DroidSans.ttf"));
    out.push(join_path(dir.as_str(), "DroidSans-Bold.ttf"));
    out.push(join_path(dir.as_str(), "DroidSansMono.ttf"));
    out.push(join_path(dir.as_str(), "NotoColorEmoji.ttf"));
    assert(out@.map_values(|s: String| s@) =~= seq![
        joined_path(dir@, "DroidSans.ttf"@),
        joined_path(dir@, "DroidSans-Bold.ttf"@),
        joined_path(dir@, "DroidSansMono.ttf"@),
        joined_path(dir@, "NotoColorEmoji.ttf"@),
    ]);
    out
}

fn join_path(dir: &str, name: &str) -> (r: String)
    ensures
        r@ == joined_path(dir@, name@),
{
    let n = dir.unicode_len();
    let mut out = String::from_str(dir);
    if n > 0 && dir.get_char(n - 1) != '/' {
        out.append("/");
    }
    out.append(name);
    out
}

/// `value` cut to its first `max_chars` characters, with `...` appended
/// when something was cut.
pub fn truncate_debug(value: &str, max_chars: usize) -> (r: String)
    ensures
        value@.len() <= max_chars ==> r@ == value@,
        value@.len() > max_chars ==> r@ == value@.take(max_chars as int) + "..."@,
{
    let n = value.unicode_len();
    if n <= max_chars {
        String::from_str(value)
    } else {
        let mut out = String::from_str(value.substring_char(0, max_chars));
        out.append("...");
        out
    }
}

/// A surface dimension setting: the trimmed value as a positive decimal
/// `u32`, else `default`.
pub fn runtime_surface_dimension(value: Option<&str>, default: u32) -> (r: u32)
    ensures
        r == (match value {
            Some(v) => match parse_int_spec(trim_spec(v@), false, 0, u32::MAX as int) {
                Some(n) => if n > 0 {
                    n as u32
                } else {
                    default
                },
                None => default,
            },
            None => default,
        }),
{
    match value {
        Some(v) => match parse_u32(trim(v)) {
            Some(n) => if n > 0 {
                n
            } else {
                default
            },
            None => default,
        },
        None => default,
    }
}

/// A delay setting in milliseconds: unset or empty means none; otherwise
/// the value as a decimal `u64`, or none when it is not one.
pub fn optional_millis(value: Option<&str>) -> (r: Option<u64>)
    ensures
        r == (match value {
            Some(v) => if v@.len() == 0 {
                None
            } else {
                match parse_int_spec(v@, false, 0, u64::MAX as int) {
                    Some(n) => Some(n as u64),
                    None => None,
                }
            },
            None => None,
        }),
{
    match value {
        Some(v) => if v.unicode_len() == 0 {
            None
        } else {
            parse_u64(v)
        },
        None => None,
    }
}

/// Whether the debug overlay is on: it is unless set to `0`, `false` or
/// `off`.
pub fn debug_overlay_enabled(value: Option<&str>) -> (r: bool)
    ensures
        r == !(match value {
            Some(v) => v@ == "0"@ || v@ == "false"@ || v@ == "off"@,
            None => false,
        }),
{
    match value {
        Some(v) => !(str_equal(v, "0") || str_equal(v, "false") || str_equal(v, "off")),
        None => true,
    }
}

/// Whether the touch-signal timer is on: only when set to `1`, `true` or
/// `on`.
pub fn touch_signal_timer_enabled(value: Option<&str>) -> (r: bool)
    ensures
        r == (match value {
            Some(v) => v@ == "1"@ || v@ == "true"@ || v@ == "on"@,
            None => false,
        }),
{
    match value {
        Some(v) => str_equal(v, "1") || str_equal(v, "true") || str_equal(v, "on"),
        None => false,
    }
}

/// The target clicked once at start-up: only with a runtime session, and
/// only for a non-empty target.
pub fn auto_click_target(runtime_session_enabled: bool, target: Option<String>) -> (r: Option<String>)
    ensures
        r matches Some(t) ==> (runtime_session_enabled && (target matches Some(g) && t == g && g@.len() > 0)),
        r is None ==> !runtime_session_enabled || (match target {
            Some(g) => g@.len() == 0,
            None => true,
        }),
{
    if !runtime_session_enabled {
        return None;
    }
    match target {
        Some(t) => if t.as_str().unicode_len() == 0 {
            None
        } else {
            Some(t)
        },
        None => None,
    }
}

/// The token in a touch-signal file: its trimmed contents, if not empty.
pub fn touch_signal_token(contents: &str) -> (r: Option<String>)
    ensures
        trim_spec(contents@).len() == 0 ==> r is None,
        trim_spec(contents@).len() > 0 ==> (r matches Some(t) && t@ == trim_spec(contents@)),
{
    let t = trim(contents);
    if t.unicode_len() == 0 {
        None
    } else {
        Some(String::from_str(t))
    }
}

/// Whether `token` is a new touch signal, i.e. differs from the last one.
pub fn is_new_touch_signal(token: &String, last: &Option<String>) -> (r: bool)
    ensures
        r == !(last matches Some(l) && l@ == token@),
{
    match last {
        Some(l) => !(*l == *token),
        None => true,
    }
}

/// Whether a read of the render mailbox holds a message to decode: it is
/// not blank and differs from the read last decoded.
pub fn is_fresh_snapshot(snapshot: &str, last: &str) -> (r: bool)
    ensures
        r == (trim_spec(snapshot@).len() > 0 && snapshot@ != last@),
{
    let t = trim(snapshot);
    t.unicode_len() != 0 && !str_equal(snapshot, last)
}

/// Which debug lanes have lit up so far.
#[derive(Clone, Copy, Debug, Default, PartialEq, Eq, Structural)]
pub struct DebugOverlayState {
    pub signal_seen: bool,
    pub raw_seen: bool,
    pub ui_seen: bool,
    pub hit_seen: bool,
    pub click_seen: bool,
}

/// The markup of one debug lane.
pub open spec fn lane_html(name: Seq<char>, on: bool) -> Seq<char> {
    "<span class=\"shadow-debug-lane "@ + name + (if on { " is-on"@ } else { ""@ }) + "\"></span>"@
}

fn push_lane(out: &mut String, name: &str, on: bool)
    ensures
        final(out)@ == old(out)@ + lane_html(name@, on),
{
    out.append("<span class=\"shadow-debug-lane ");
    out.append(name);
    if on {
        out.append(" is-on");
    } else {
        out.append("");
    }
    out.append("\"></span>");
    assert(final(out)@ =~= old(out)@ + lane_html(name@, on));
}

impl DebugOverlayState {
    /// The overlay's markup: one lane each for signal, raw, ui, hit and
    /// click, lit when seen.
    pub fn overlay_html(&self) -> (r: String)
        ensures
            r@ == lane_html("signal"@, self.signal_seen) + lane_html("raw"@, self.raw_seen) + lane_html(
                "ui"@,
                self.ui_seen,
            ) + lane_html("hit"@, self.hit_seen) + lane_html("click"@, self.click_seen),
    {
        let mut out = String::new();
        push_lane(&mut out, "signal", self.signal_seen);
        push_lane(&mut out, "raw", self.raw_seen);
        push_lane(&mut out, "ui", self.ui_seen);
        push_lane(&mut out, "hit", self.hit_seen);
        push_lane(&mut out, "click", self.click_seen);
        assert(out@ =~= lane_html("signal"@, self.signal_seen) + lane_html("raw"@, self.raw_seen)
            + lane_html("ui"@, self.ui_seen) + lane_html("hit"@, self.hit_seen) + lane_html(
            "click"@,
            self.click_seen,
        ));
        out
    }
}


/// How the script runtime host is invoked.
pub const SESSION_USAGE: &'static str = "usage: shadow-runtime-host --session <bundle-path>";

/// The bundle path from the host's arguments (after the program name):
/// exactly `--session <bundle-path>`; the usage text otherwise.
pub fn parse_session_args(args: &Vec<String>) -> (r: Result<String, String>)
    ensures
        (args@.len() == 2 && args@[0]@ == "--session"@) ==> (r matches Ok(p) && p@ == args@[1]@),
        !(args@.len() == 2 && args@[0]@ == "--session"@) ==> (r matches Err(e) && e@ == SESSION_USAGE@),
{
    if args.len() != 2 || !str_equal(args[0].as_str(), "--session") {
        return Err(String::from_str(SESSION_USAGE));
    }
    Ok(args[1].clone())
}

/// The script expression that dispatches an event, given the event as JSON.
pub fn dispatch_expr(event_json: &str) -> (r: String)
    ensures
        r@ == "globalThis.SHADOW_RUNTIME_HOST.dispatch("@ + event_json@ + ")"@,
{
    let mut expr = String::from_str("globalThis.SHADOW_RUNTIME_HOST.dispatch(");
    expr.append(event_json);
    expr.append(")");
    expr
}

/// Whether a session request line is blank and skipped.
pub fn is_blank_request_line(line: &str) -> (r: bool)
    ensures
        r == (trim_spec(line@).len() == 0),
{
    trim(line).unicode_len() == 0
}

/// The script expression whose value the smoke tools print by default.
pub const DEFAULT_RESULT_EXPR: &'static str = "globalThis.RUNTIME_SMOKE_RESULT";

/// The options of the runtime smoke tools.
#[derive(Debug)]
pub struct SmokeOptions {
    pub module: Option<String>,
    pub result_expr: String,
    pub session: bool,
}

/// What the smoke tools' options say, as views.
pub open spec fn smoke_view(o: SmokeOptions) -> (Option<Seq<char>>, Seq<char>, bool) {
    (
        match o.module {
            Some(p) => Some(p@),
            None => None,
        },
        o.result_expr@,
        o.session,
    )
}

/// The options after reading `args` from position `i` on, in the state
/// `(module, expr, session)`: `--result-expr` takes the next argument as
/// the expression, `--session` (where accepted) sets the session flag, the
/// first other argument is the module path, and any further one is refused.
pub open spec fn smoke_from(
    args: Seq<Seq<char>>,
    accept_session: bool,
    i: int,
    module: Option<Seq<char>>,
    expr: Seq<char>,
    session: bool,
) -> Result<(Option<Seq<char>>, Seq<char>, bool), Seq<char>>
    decreases args.len() - i,
{
    if i < 0 || i >= args.len() {
        Ok((module, expr, session))
    } else if args[i] == "--result-expr"@ {
        if i + 1 < args.len() {
            smoke_from(args, accept_session, i + 2, module, args[i + 1], session)
        } else {
            Err("missing value for --result-expr"@)
        }
    } else if accept_session && args[i] == "--session"@ {
        smoke_from(args, accept_session, i + 1, module, expr, true)
    } else if module is None {
        smoke_from(args, accept_session, i + 1, Some(args[i]), expr, session)
    } else {
        Err("unknown argument: "@ + args[i])
    }
}

pub open spec fn string_views(v: Seq<String>) -> Seq<Seq<char>> {
    v.map_values(|s: String| s@)
}

/// The options of a smoke tool from its arguments (after the program name);
/// `accept_session` for the tool that has a session mode.
pub fn parse_smoke_options(args: &Vec<String>, accept_session: bool) -> (r: Result<SmokeOptions, String>)
    ensures
        match smoke_from(string_views(args@), accept_session, 0, None, DEFAULT_RESULT_EXPR@, false) {
            Ok(v) => r matches Ok(o) && smoke_view(o) == v,
            Err(e) => r matches Err(m) && m@ == e,
        },
{
    let ghost views = string_views(args@);
    let mut module: Option<String> = None;
    let mut result_expr = String::from_str(DEFAULT_RESULT_EXPR);
    let mut session = false;
    let mut i: usize = 0;
    while i < args.len()
        invariant
            views == string_views(args@),
            i <= args@.len(),
            smoke_from(views, accept_session, 0, None, DEFAULT_RESULT_EXPR@, false) == smoke_from(
                views,
                accept_session,
                i as int,
                match module {
                    Some(p) => Some(p@),
                    None => None,
                },
                result_expr@,
                session,
            ),
        decreases args@.len() - i,
    {
        let arg = args[i].as_str();
        if str_equal(arg, "--result-expr") {
            if i + 1 < args.len() {
                result_expr = args[i + 1].clone();
                i = i + 2;
            } else {
                return Err(String::from_str("missing value for --result-expr"));
            }
        } else if accept_session && str_equal(arg, "--session") {
            session = true;
            i = i + 1;
        } else if module.is_none() {
            module = Some(args[i].clone());
            i = i + 1;
        } else {
            let mut message = String::from_str("unknown argument: ");
            message.append(arg);
            return Err(message);
        }
    }
    Ok(SmokeOptions { module, result_expr, session })
}

} // verus!
