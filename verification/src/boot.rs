//! Start-up decisions of the first-stage init wrapper and of the session
//! launcher: which payload to start, with which client, and in which mode.
//! What exists on disk and what the environment holds are handed in.
use crate::text::str_equal;
use vstd::prelude::*;
use vstd::string::*;

verus! {

/// The runtime client the guest compositor prefers.
pub const GUEST_RUNTIME_CLIENT_BIN: &'static str = "/shadow-blitz-demo";

/// The older test client.
pub const GUEST_LEGACY_CLIENT_BIN: &'static str = "/shadow-counter-guest";

/// The guest compositor.
pub const GUEST_COMPOSITOR_BIN: &'static str = "/shadow-compositor-guest";

/// The bootstrap payload.
pub const BOOTSTRAP_BIN: &'static str = "/shadow-bootstrap";

/// The display test payload.
pub const DRM_RECT_BIN: &'static str = "/drm-rect";

/// Log filter given to the guest compositor started by the init wrapper.
pub const INIT_GUEST_RUST_LOG: &'static str =
    "shadow_compositor_guest=info,shadow_blitz_demo=info,shadow_counter_guest=info,smithay=warn";

/// Log filter given to the guest compositor by the session launcher when
/// none is set.
pub const SESSION_GUEST_RUST_LOG: &'static str =
    "shadow_compositor_guest=info,shadow_counter_guest=info,smithay=warn";

/// Exit status when an argument holds a NUL byte.
pub const EXIT_ARGV_NUL: i32 = 125;

/// Which of the files the start-up decisions look at are present.
#[derive(Clone, Copy, Debug, PartialEq, Eq, Structural)]
pub struct BootFiles {
    pub late_session_rc: bool,
    pub bootstrap: bool,
    pub compositor_guest: bool,
    pub runtime_client: bool,
    pub legacy_client: bool,
    pub drm_rect: bool,
}

/// What the init wrapper starts in the background.
#[derive(Clone, Copy, Debug)]
pub enum BackgroundPayload {
    Binary(&'static str),
    GuestUi,
}

impl BackgroundPayload {
    /// The program the payload runs.
    pub fn label(&self) -> (r: &'static str)
        ensures
            r@ == (match self {
                BackgroundPayload::Binary(p) => p@,
                BackgroundPayload::GuestUi => GUEST_COMPOSITOR_BIN@,
            }),
    {
        match self {
            BackgroundPayload::Binary(p) => p,
            BackgroundPayload::GuestUi => GUEST_COMPOSITOR_BIN,
        }
    }
}

/// The background payload: none once the session launcher takes over;
/// otherwise the bootstrap program, the guest UI (compositor plus a
/// client), or the display test, in that order of preference.
pub fn background_payload(files: BootFiles) -> (r: Option<BackgroundPayload>)
    ensures
        files.late_session_rc ==> r is None,
        !files.late_session_rc && files.bootstrap ==> (r matches Some(BackgroundPayload::Binary(p)) && p@
            == BOOTSTRAP_BIN@),
        !files.late_session_rc && !files.bootstrap && files.compositor_guest && (files.runtime_client
            || files.legacy_client) ==> (r matches Some(BackgroundPayload::GuestUi)),
        !files.late_session_rc && !files.bootstrap && !(files.compositor_guest && (files.runtime_client
            || files.legacy_client)) && files.drm_rect ==> (r matches Some(BackgroundPayload::Binary(p))
            && p@ == DRM_RECT_BIN@),
        !files.late_session_rc && !files.bootstrap && !(files.compositor_guest && (files.runtime_client
            || files.legacy_client)) && !files.drm_rect ==> r is None,
{
    if files.late_session_rc {
        return None;
    }
    if files.bootstrap {
        return Some(BackgroundPayload::Binary(BOOTSTRAP_BIN));
    }
    if files.compositor_guest && (files.runtime_client || files.legacy_client) {
        return Some(BackgroundPayload::GuestUi);
    }
    if files.drm_rect {
        return Some(BackgroundPayload::Binary(DRM_RECT_BIN));
    }
    None
}

/// Whether the payload is the display test, which first waits for the
/// display device.
pub fn payload_waits_for_display(payload: &BackgroundPayload) -> (r: bool)
    ensures
        r == (payload matches BackgroundPayload::Binary(p) && p@ == DRM_RECT_BIN@),
{
    match payload {
        BackgroundPayload::Binary(p) => str_equal(p, DRM_RECT_BIN),
        BackgroundPayload::GuestUi => false,
    }
}

/// The client the guest compositor runs: the runtime client when present.
pub fn default_guest_client_bin(runtime_client_present: bool) -> (r: &'static str)
    ensures
        r@ == (if runtime_client_present {
            GUEST_RUNTIME_CLIENT_BIN@
        } else {
            GUEST_LEGACY_CLIENT_BIN@
        }),
{
    if runtime_client_present {
        GUEST_RUNTIME_CLIENT_BIN
    } else {
        GUEST_LEGACY_CLIENT_BIN
    }
}

/// The environment the init wrapper gives the guest compositor, in order.
pub open spec fn init_guest_env_spec(runtime_dir: Seq<char>, client: Seq<char>) -> Seq<(Seq<char>, Seq<char>)> {
    let base = seq![
        ("XDG_RUNTIME_DIR"@, runtime_dir),
        ("TMPDIR"@, runtime_dir),
        ("SHADOW_GUEST_CLIENT"@, client),
        ("RUST_LOG"@, INIT_GUEST_RUST_LOG@),
    ];
    if client == GUEST_RUNTIME_CLIENT_BIN@ {
        base.push(("SHADOW_GUEST_CLIENT_MODE"@, "runtime"@))
    } else {
        base
    }
}

pub open spec fn pairs_view(v: Seq<(String, String)>) -> Seq<(Seq<char>, Seq<char>)> {
    v.map_values(|p: (String, String)| (p.0@, p.1@))
}

fn pair(k: &str, v: &str) -> (r: (String, String))
    ensures
        r.0@ == k@,
        r.1@ == v@,
{
    (String::from_str(k), String::from_str(v))
}

/// The environment the init wrapper gives the guest compositor.
pub fn init_guest_env(runtime_dir: &str, client: &str) -> (r: Vec<(String, String)>)
    ensures
        pairs_view(r@) == init_guest_env_spec(runtime_dir@, client@),
{
    let mut env: Vec<(String, String)> = Vec::new();
    env.push(pair("XDG_RUNTIME_DIR", runtime_dir));
    env.push(pair("TMPDIR", runtime_dir));
    env.push(pair("SHADOW_GUEST_CLIENT", client));
    env.push(pair("RUST_LOG", INIT_GUEST_RUST_LOG));
    if str_equal(client, GUEST_RUNTIME_CLIENT_BIN) {
        env.push(pair("SHADOW_GUEST_CLIENT_MODE", "runtime"));
    }
    assert(pairs_view(env@) =~= init_guest_env_spec(runtime_dir@, client@));
    env
}

/// The argument list handed to the stock init: the wrapper's own
/// arguments (just `/init` when there are none); `None` when one holds a
/// NUL byte.
pub fn stock_init_argv(args: Vec<Vec<u8>>) -> (r: Option<Vec<Vec<u8>>>)
    ensures
        (exists|i: int, j: int| 0 <= i < args@.len() && 0 <= j < args@[i]@.len() && #[trigger] args@[i]@[j] == 0u8)
            ==> r is None,
        !(exists|i: int, j: int| 0 <= i < args@.len() && 0 <= j < args@[i]@.len() && #[trigger] args@[i]@[j] == 0u8)
            ==> (r matches Some(v) && (if args@.len() == 0 {
            v@.len() == 1 && v@[0]@ == seq![0x2fu8, 0x69u8, 0x6eu8, 0x69u8, 0x74u8]
        } else {
            v@ == args@
        })),
{
    let mut i: usize = 0;
    while i < args.len()
        invariant
            0 <= i <= args@.len(),
            forall|a: int, b: int| 0 <= a < i && 0 <= b < args@[a]@.len() ==> #[trigger] args@[a]@[b] != 0u8,
        decreases args@.len() - i,
    {
        let mut j: usize = 0;
        while j < args[i].len()
            invariant
                0 <= i < args@.len(),
                0 <= j <= args@[i as int]@.len(),
                forall|b: int| 0 <= b < j ==> #[trigger] args@[i as int]@[b] != 0u8,
            decreases args@[i as int]@.len() - j,
        {
            if args[i][j] == 0 {
                return None;
            }
            j = j + 1;
        }
        i = i + 1;
    }
    if args.len() == 0 {
        let mut v: Vec<Vec<u8>> = Vec::new();
        v.push(vec![0x2fu8, 0x69u8, 0x6eu8, 0x69u8, 0x74u8]);
        return Some(v);
    }
    Some(args)
}

/// How the session launcher runs.
#[derive(Clone, Copy, Debug, PartialEq, Eq, Structural)]
pub enum SessionMode {
    DrmRect,
    GuestUi,
}

/// The session mode: the one named by the mode setting, else the guest UI
/// when the compositor and the test client are present, else the display
/// test when it is present.
pub fn detect_session_mode(
    setting: Option<&str>,
    compositor_present: bool,
    counter_guest_present: bool,
    drm_rect_present: bool,
) -> (r: Result<SessionMode, String>)
    ensures
        match setting {
            Some(s) => if s@ == "drm-rect"@ {
                r == Ok::<SessionMode, String>(SessionMode::DrmRect)
            } else if s@ == "guest-ui"@ {
                r == Ok::<SessionMode, String>(SessionMode::GuestUi)
            } else {
                r matches Err(e) && e@ == "unknown SHADOW_SESSION_MODE="@ + s@
            },
            None => if compositor_present && counter_guest_present {
                r == Ok::<SessionMode, String>(SessionMode::GuestUi)
            } else if drm_rect_present {
                r == Ok::<SessionMode, String>(SessionMode::DrmRect)
            } else {
                r matches Err(e) && e@ == "could not detect a session mode"@
            },
        },
{
    match setting {
        Some(s) => if str_equal(s, "drm-rect") {
            Ok(SessionMode::DrmRect)
        } else if str_equal(s, "guest-ui") {
            Ok(SessionMode::GuestUi)
        } else {
            let mut e = String::from_str("unknown SHADOW_SESSION_MODE=");
            e.append(s);
            Err(e)
        },
        None => if compositor_present && counter_guest_present {
            Ok(SessionMode::GuestUi)
        } else if drm_rect_present {
            Ok(SessionMode::DrmRect)
        } else {
            Err(String::from_str("could not detect a session mode"))
        },
    }
}

/// Settings the session launcher passes on to the guest compositor when set.
pub open spec fn forwarded_settings() -> Seq<Seq<char>> {
    seq![
        "SHADOW_GUEST_COMPOSITOR_ENABLE_DRM"@,
        "SHADOW_GUEST_COMPOSITOR_EXIT_ON_FIRST_FRAME"@,
        "SHADOW_GUEST_COMPOSITOR_EXIT_ON_FIRST_WINDOW"@,
        "SHADOW_GUEST_COMPOSITOR_EXIT_ON_CLIENT_DISCONNECT"@,
        "SHADOW_GUEST_CLIENT_EXIT_ON_CONFIGURE"@,
        "SHADOW_GUEST_COUNTER_LINGER_MS"@,
        "SHADOW_GUEST_FRAME_PATH"@,
        "SHADOW_GUEST_CLIENT_ENV"@,
        "SHADOW_GUEST_COMPOSITOR_SELFTEST_DRM"@,
    ]
}

/// Settings the session launcher passes on to the guest compositor when set.
pub fn forwarded_setting_names() -> (r: Vec<&'static str>)
    ensures
        r@.map_values(|s: &'static str| s@) == forwarded_settings(),
{
    let mut v: Vec<&'static str> = Vec::new();
    v.push("SHADOW_GUEST_COMPOSITOR_ENABLE_DRM");
    v.push("SHADOW_GUEST_COMPOSITOR_EXIT_ON_FIRST_FRAME");
    v.push("SHADOW_GUEST_COMPOSITOR_EXIT_ON_FIRST_WINDOW");
    v.push("SHADOW_GUEST_COMPOSITOR_EXIT_ON_CLIENT_DISCONNECT");
    v.push("SHADOW_GUEST_CLIENT_EXIT_ON_CONFIGURE");
    v.push("SHADOW_GUEST_COUNTER_LINGER_MS");
    v.push("SHADOW_GUEST_FRAME_PATH");
    v.push("SHADOW_GUEST_CLIENT_ENV");
    v.push("SHADOW_GUEST_COMPOSITOR_SELFTEST_DRM");
    assert(v@.map_values(|s: &'static str| s@) =~= forwarded_settings());
    v
}

/// A setting's value, or `default` when it is unset.
pub fn setting_or(value: Option<String>, default: &str) -> (r: String)
    ensures
        r@ == (match value {
            Some(v) => v@,
            None => default@,
        }),
{
    match value {
        Some(v) => v,
        None => String::from_str(default),
    }
}

/// The environment the session launcher gives the guest compositor before
/// the forwarded settings: runtime directory, client and log filter, each
/// from its setting or its default.
pub fn session_guest_env(runtime_dir: &str, client: Option<String>, rust_log: Option<String>) -> (r: Vec<(String, String)>)
    ensures
        pairs_view(r@) == seq![
            ("XDG_RUNTIME_DIR"@, runtime_dir@),
            ("TMPDIR"@, runtime_dir@),
            ("SHADOW_GUEST_CLIENT"@, match client { Some(c) => c@, None => GUEST_LEGACY_CLIENT_BIN@ }),
            ("RUST_LOG"@, match rust_log { Some(l) => l@, None => SESSION_GUEST_RUST_LOG@ }),
        ],
{
    let mut env: Vec<(String, String)> = Vec::new();
    env.push(pair("XDG_RUNTIME_DIR", runtime_dir));
    env.push(pair("TMPDIR", runtime_dir));
    env.push((String::from_str("SHADOW_GUEST_CLIENT"), setting_or(client, GUEST_LEGACY_CLIENT_BIN)));
    env.push((String::from_str("RUST_LOG"), setting_or(rust_log, SESSION_GUEST_RUST_LOG)));
    assert(pairs_view(env@) =~= seq![
        ("XDG_RUNTIME_DIR"@, runtime_dir@),
        ("TMPDIR"@, runtime_dir@),
        ("SHADOW_GUEST_CLIENT"@, pairs_view(env@)[2].1),
        ("RUST_LOG"@, pairs_view(env@)[3].1),
    ]);
    env
}

} // verus!
