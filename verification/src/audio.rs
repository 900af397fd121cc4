//! The audio service that scripts use to play test tones: players with a
//! small state machine, kept in a table by id.
//!
//! Time is handed in as milliseconds of a monotonic clock (`now_ms`), so
//! every transition is a function of the state and the time.
use crate::text::{append_decimal, decimal_text, str_equal, trim, trim_spec};
use std::collections::BTreeMap;
use vstd::prelude::*;
use vstd::string::*;

verus! {

broadcast use {vstd::std_specs::btree::group_btree_axioms, vstd::laws_cmp::group_laws_cmp};

/// Tone length used when a request does not give one.
pub const DEFAULT_DURATION_MS: u32 = 2_400;

/// Tone pitch used when a request does not give one.
pub const DEFAULT_FREQUENCY_HZ: u32 = 440;

/// Where a player is in its life.
#[derive(Clone, Copy, Debug, PartialEq, Eq, Structural)]
pub enum PlayerState {
    Idle,
    Playing,
    Paused,
    Stopped,
    Completed,
    Released,
    Error,
}

impl PlayerState {
    /// The name scripts see.
    pub fn as_str(self) -> (r: &'static str)
        ensures
            r@ == state_name(self),
    {
        match self {
            PlayerState::Idle => "idle",
            PlayerState::Playing => "playing",
            PlayerState::Paused => "paused",
            PlayerState::Stopped => "stopped",
            PlayerState::Completed => "completed",
            PlayerState::Released => "released",
            PlayerState::Error => "error",
        }
    }
}

/// The name scripts see for a state.
pub open spec fn state_name(s: PlayerState) -> Seq<char> {
    match s {
        PlayerState::Idle => "idle"@,
        PlayerState::Playing => "playing"@,
        PlayerState::Paused => "paused"@,
        PlayerState::Stopped => "stopped"@,
        PlayerState::Completed => "completed"@,
        PlayerState::Released => "released"@,
        PlayerState::Error => "error"@,
    }
}

/// A failed audio request: the message, and whether it is a type error
/// (a bad argument) rather than a general one.
#[derive(Debug)]
pub struct AudioError {
    pub type_error: bool,
    pub message: String,
}

pub(crate) fn general_error(message: &str) -> (r: AudioError)
    ensures
        !r.type_error && r.message@ == message@,
{
    AudioError { type_error: false, message: String::from_str(message) }
}

fn type_error(message: String) -> (r: AudioError)
    ensures
        r.type_error && r.message == message,
{
    AudioError { type_error: true, message }
}

/// What a script asks to play.
#[derive(Debug)]
pub struct AudioSourceRequest {
    pub kind: String,
    pub duration_ms: u32,
    pub frequency_hz: u32,
}

impl Default for AudioSourceRequest {
    fn default() -> (r: Self)
        ensures
            r.kind@ == "tone"@,
            r.duration_ms == DEFAULT_DURATION_MS,
            r.frequency_hz == DEFAULT_FREQUENCY_HZ,
    {
        AudioSourceRequest {
            kind: String::from_str("tone"),
            duration_ms: DEFAULT_DURATION_MS,
            frequency_hz: DEFAULT_FREQUENCY_HZ,
        }
    }
}

/// The tone a request asks for, if it is a valid one.
pub open spec fn tone_for(request: AudioSourceRequest) -> Option<ToneSource> {
    if request.kind@ == "tone"@ && request.duration_ms > 0 && request.frequency_hz > 0 {
        Some(ToneSource { duration_ms: request.duration_ms, frequency_hz: request.frequency_hz })
    } else {
        None
    }
}

/// A sine tone.
#[derive(Clone, Copy, Debug, PartialEq, Eq, Structural)]
pub struct ToneSource {
    pub duration_ms: u32,
    pub frequency_hz: u32,
}

impl ToneSource {
    /// The tone a request asks for: only `tone` sources, with a non-zero
    /// length and pitch.
    pub fn try_from(request: AudioSourceRequest) -> (r: Result<ToneSource, AudioError>)
        ensures
            request.kind@ != "tone"@ ==> (r matches Err(e) && !e.type_error && e.message@
                == "audio.createPlayer does not support source kind '"@ + request.kind@ + "'"@),
            request.kind@ == "tone"@ && request.duration_ms == 0 ==> (r matches Err(e) && e.type_error
                && e.message@ == "audio.createPlayer requires source.durationMs > 0"@),
            request.kind@ == "tone"@ && request.duration_ms > 0 && request.frequency_hz == 0 ==> (r matches Err(e)
                && e.type_error && e.message@ == "audio.createPlayer requires source.frequencyHz > 0"@),
            request.kind@ == "tone"@ && request.duration_ms > 0 && request.frequency_hz > 0 ==> r == Ok::<
                ToneSource,
                AudioError,
            >(ToneSource { duration_ms: request.duration_ms, frequency_hz: request.frequency_hz }),
    {
        if !str_equal(request.kind.as_str(), "tone") {
            let mut msg = String::from_str("audio.createPlayer does not support source kind '");
            msg.append(request.kind.as_str());
            msg.append("'");
            return Err(AudioError { type_error: false, message: msg });
        }
        if request.duration_ms == 0 {
            return Err(type_error(String::from_str("audio.createPlayer requires source.durationMs > 0")));
        }
        if request.frequency_hz == 0 {
            return Err(type_error(String::from_str("audio.createPlayer requires source.frequencyHz > 0")));
        }
        Ok(ToneSource { duration_ms: request.duration_ms, frequency_hz: request.frequency_hz })
    }
}

/// How players make sound.
#[derive(Debug)]
pub enum AudioBackend {
    /// Players only keep time.
    Memory,
    /// Players run a helper program.
    LinuxSpike { binary_path: String },
}

impl AudioBackend {
    /// The backend's name.
    pub fn name(&self) -> (r: &'static str)
        ensures
            r@ == (match self {
                AudioBackend::Memory => "memory"@,
                AudioBackend::LinuxSpike { .. } => "linux_spike"@,
            }),
    {
        match self {
            AudioBackend::Memory => "memory",
            AudioBackend::LinuxSpike { .. } => "linux_spike",
        }
    }

    /// The backend chosen by the settings: the backend name (trimmed;
    /// `memory` when unset or empty) and, for `linux_spike`, the helper's
    /// path (trimmed, required).
    pub fn from_settings(backend: Option<&str>, spike_binary: Option<&str>) -> (r: Result<AudioBackend, String>)
        ensures
            ({
                let name = match backend {
                    Some(b) => if trim_spec(b@).len() > 0 {
                        trim_spec(b@)
                    } else {
                        "memory"@
                    },
                    None => "memory"@,
                };
                if name == "memory"@ {
                    r matches Ok(AudioBackend::Memory)
                } else if name == "linux_spike"@ {
                    match spike_binary {
                        Some(p) => if trim_spec(p@).len() > 0 {
                            r matches Ok(AudioBackend::LinuxSpike { binary_path }) && binary_path@ == trim_spec(p@)
                        } else {
                            r matches Err(e) && e@ == SPIKE_BINARY_REQUIRED@
                        },
                        None => r matches Err(e) && e@ == SPIKE_BINARY_REQUIRED@,
                    }
                } else {
                    r matches Err(e) && e@ == "runtime audio host: unsupported backend '"@ + name
                        + "', expected memory or linux_spike"@
                }
            }),
    {
        let name: &str = match backend {
            Some(b) => {
                let t = trim(b);
                if t.unicode_len() > 0 {
                    t
                } else {
                    "memory"
                }
            },
            None => "memory",
        };
        if str_equal(name, "memory") {
            Ok(AudioBackend::Memory)
        } else if str_equal(name, "linux_spike") {
            match spike_binary {
                Some(p) => {
                    let t = trim(p);
                    if t.unicode_len() > 0 {
                        Ok(AudioBackend::LinuxSpike { binary_path: String::from_str(t) })
                    } else {
                        Err(String::from_str(SPIKE_BINARY_REQUIRED))
                    }
                },
                None => Err(String::from_str(SPIKE_BINARY_REQUIRED)),
            }
        } else {
            let mut msg = String::from_str("runtime audio host: unsupported backend '");
            msg.append(name);
            msg.append("', expected memory or linux_spike");
            Err(msg)
        }
    }
}

/// Error for the helper backend without a helper path.
pub const SPIKE_BINARY_REQUIRED: &'static str =
    "runtime audio host: SHADOW_RUNTIME_AUDIO_SPIKE_BINARY is required for linux_spike backend";

/// A player that only keeps time: how long it has played before the last
/// pause, and since when it has been playing.
#[derive(Clone, Copy, Debug, PartialEq, Eq, Structural)]
pub struct MemoryPlayerRuntime {
    pub elapsed_before_pause_ms: u64,
    pub started_at_ms: Option<u64>,
    pub state: PlayerState,
}

/// Time played by `r` at `now_ms` (a clock reading before the start counts
/// as no time; the total saturates at `u64::MAX`).
pub open spec fn played_ms(r: MemoryPlayerRuntime, now_ms: u64) -> u64 {
    let total = r.elapsed_before_pause_ms + match r.started_at_ms {
        Some(t) => if now_ms >= t {
            now_ms - t
        } else {
            0
        },
        None => 0,
    };
    if total > u64::MAX {
        u64::MAX
    } else {
        total as u64
    }
}

/// A play request: refused once released; resumes a paused player;
/// restarts from zero unless already playing.
pub open spec fn play_spec(r: MemoryPlayerRuntime, now_ms: u64) -> Option<MemoryPlayerRuntime> {
    if r.state == PlayerState::Released {
        None
    } else if r.state == PlayerState::Paused {
        Some(MemoryPlayerRuntime { started_at_ms: Some(now_ms), state: PlayerState::Playing, ..r })
    } else if r.state != PlayerState::Playing {
        Some(MemoryPlayerRuntime { elapsed_before_pause_ms: 0, started_at_ms: Some(now_ms), state: PlayerState::Playing })
    } else {
        Some(r)
    }
}

/// A pause request: refused once released; banks the time played when
/// playing; otherwise changes nothing.
pub open spec fn pause_spec(r: MemoryPlayerRuntime, now_ms: u64) -> Option<MemoryPlayerRuntime> {
    if r.state == PlayerState::Released {
        None
    } else if r.state == PlayerState::Playing {
        Some(MemoryPlayerRuntime {
            elapsed_before_pause_ms: played_ms(r, now_ms),
            started_at_ms: None,
            state: PlayerState::Paused,
        })
    } else {
        Some(r)
    }
}

/// A stop request: refused once released; otherwise back to zero, stopped.
pub open spec fn stop_spec(r: MemoryPlayerRuntime) -> Option<MemoryPlayerRuntime> {
    if r.state == PlayerState::Released {
        None
    } else {
        Some(MemoryPlayerRuntime { elapsed_before_pause_ms: 0, started_at_ms: None, state: PlayerState::Stopped })
    }
}

/// A playing tone that has played its full length is completed.
pub open spec fn reconcile_spec(r: MemoryPlayerRuntime, duration_ms: u32, now_ms: u64) -> MemoryPlayerRuntime {
    if r.state == PlayerState::Playing && r.started_at_ms is Some && played_ms(r, now_ms) >= duration_ms {
        MemoryPlayerRuntime {
            elapsed_before_pause_ms: duration_ms as u64,
            started_at_ms: None,
            state: PlayerState::Completed,
        }
    } else {
        r
    }
}

/// An idle player at zero.
pub open spec fn fresh_runtime() -> MemoryPlayerRuntime {
    MemoryPlayerRuntime { elapsed_before_pause_ms: 0, started_at_ms: None, state: PlayerState::Idle }
}

impl MemoryPlayerRuntime {
    /// An idle player at zero.
    pub fn new() -> (r: Self)
        ensures
            r == fresh_runtime(),
    {
        MemoryPlayerRuntime { elapsed_before_pause_ms: 0, started_at_ms: None, state: PlayerState::Idle }
    }

    fn played(&self, now_ms: u64) -> (r: u64)
        ensures
            r == played_ms(*self, now_ms),
    {
        match self.started_at_ms {
            Some(t) => if now_ms >= t {
                self.elapsed_before_pause_ms.saturating_add(now_ms - t)
            } else {
                self.elapsed_before_pause_ms
            },
            None => self.elapsed_before_pause_ms,
        }
    }

    /// Starts or resumes playing; clears the last error. Refused for a
    /// released player.
    pub fn play(&mut self, now_ms: u64, last_error: &mut Option<String>) -> (r: Result<(), AudioError>)
        ensures
            match play_spec(*old(self), now_ms) {
                Some(n) => r is Ok && *final(self) == n && *final(last_error) == None::<String>,
                None => (r matches Err(e) && !e.type_error && e.message@ == "audio.play cannot resume a released player"@)
                    && *final(self) == *old(self) && *final(last_error) == *old(last_error),
            },
            (old(self).state == PlayerState::Idle || old(self).state == PlayerState::Stopped || old(self).state
                == PlayerState::Completed || old(self).state == PlayerState::Error) ==> final(self).state
                == PlayerState::Playing && final(self).elapsed_before_pause_ms == 0 && final(self).started_at_ms
                == Some(now_ms),
            old(self).state == PlayerState::Paused ==> final(self).state == PlayerState::Playing
                && final(self).elapsed_before_pause_ms == old(self).elapsed_before_pause_ms
                && final(self).started_at_ms == Some(now_ms),
            old(self).state == PlayerState::Playing ==> *final(self) == *old(self),
    {
        if self.state == PlayerState::Released {
            return Err(general_error("audio.play cannot resume a released player"));
        }
        if self.state == PlayerState::Paused {
            self.started_at_ms = Some(now_ms);
        } else if self.state != PlayerState::Playing {
            self.elapsed_before_pause_ms = 0;
            self.started_at_ms = Some(now_ms);
        }
        self.state = PlayerState::Playing;
        *last_error = None;
        Ok(())
    }

    /// Pauses a playing player. Refused for a released player.
    pub fn pause(&mut self, now_ms: u64) -> (r: Result<(), AudioError>)
        ensures
            match pause_spec(*old(self), now_ms) {
                Some(n) => r is Ok && *final(self) == n,
                None => (r matches Err(e) && !e.type_error && e.message@ == "audio.pause cannot target a released player"@)
                    && *final(self) == *old(self),
            },
    {
        if self.state == PlayerState::Released {
            return Err(general_error("audio.pause cannot target a released player"));
        }
        if self.state == PlayerState::Playing {
            let played = self.played(now_ms);
            self.elapsed_before_pause_ms = played;
            self.started_at_ms = None;
            self.state = PlayerState::Paused;
        }
        Ok(())
    }

    /// Stops and rewinds; clears the last error. Refused for a released
    /// player.
    pub fn stop(&mut self, last_error: &mut Option<String>) -> (r: Result<(), AudioError>)
        ensures
            match stop_spec(*old(self)) {
                Some(n) => r is Ok && *final(self) == n && *final(last_error) == None::<String>,
                None => (r matches Err(e) && !e.type_error && e.message@ == "audio.stop cannot target a released player"@)
                    && *final(self) == *old(self) && *final(last_error) == *old(last_error),
            },
    {
        if self.state == PlayerState::Released {
            return Err(general_error("audio.stop cannot target a released player"));
        }
        self.elapsed_before_pause_ms = 0;
        self.started_at_ms = None;
        self.state = PlayerState::Stopped;
        *last_error = None;
        Ok(())
    }

    /// Stops the player for good. Refused for a released player.
    pub fn release(&mut self, last_error: &mut Option<String>) -> (r: Result<(), AudioError>)
        ensures
            match stop_spec(*old(self)) {
                Some(n) => r is Ok && *final(self) == (MemoryPlayerRuntime { state: PlayerState::Released, ..n })
                    && *final(last_error) == None::<String>,
                None => (r matches Err(e) && !e.type_error && e.message@ == "audio.stop cannot target a released player"@)
                    && *final(self) == *old(self) && *final(last_error) == *old(last_error),
            },
    {
        match self.stop(last_error) {
            Ok(()) => {},
            Err(e) => return Err(e),
        }
        self.state = PlayerState::Released;
        Ok(())
    }

    /// Marks a tone that has played its full length as completed.
    pub fn reconcile(&mut self, source: &ToneSource, now_ms: u64)
        ensures
            *final(self) == reconcile_spec(*old(self), source.duration_ms, now_ms),
    {
        if self.state != PlayerState::Playing {
            return;
        }
        if self.started_at_ms.is_none() {
            return;
        }
        let played = self.played(now_ms);
        if played >= source.duration_ms as u64 {
            self.elapsed_before_pause_ms = source.duration_ms as u64;
            self.started_at_ms = None;
            self.state = PlayerState::Completed;
        }
    }
}

/// A released player stays released: playing, pausing, stopping and
/// releasing it again are all refused.
pub proof fn lemma_released_is_final(r: MemoryPlayerRuntime, now_ms: u64)
    requires
        r.state == PlayerState::Released,
    ensures
        play_spec(r, now_ms) is None,
        pause_spec(r, now_ms) is None,
        stop_spec(r) is None,
        reconcile_spec(r, 0, now_ms) == r,
{
}

/// Pausing and then playing resumes where the tone was paused.
pub proof fn lemma_pause_resume_keeps_position(r: MemoryPlayerRuntime, t1: u64, t2: u64)
    requires
        r.state == PlayerState::Playing,
    ensures
        ({
            let paused = pause_spec(r, t1)->0;
            let resumed = play_spec(paused, t2)->0;
            &&& resumed.state == PlayerState::Playing
            &&& resumed.elapsed_before_pause_ms == played_ms(r, t1)
            &&& played_ms(resumed, t2) == played_ms(r, t1)
        }),
{
}

/// Playing a player that is not paused, playing or released (idle,
/// stopped, completed or failed) starts the tone over: nothing has been
/// played yet at the moment of the request, and the clock runs from it.
pub proof fn lemma_play_restarts_from_zero(r: MemoryPlayerRuntime, now_ms: u64)
    requires
        r.state == PlayerState::Idle || r.state == PlayerState::Stopped || r.state == PlayerState::Completed
            || r.state == PlayerState::Error,
    ensures
        play_spec(r, now_ms) matches Some(n) && n.state == PlayerState::Playing && n.elapsed_before_pause_ms == 0
            && n.started_at_ms == Some(now_ms) && played_ms(n, now_ms) == 0,
{
}

/// A tone that has played to its end can be played again: right after the
/// new play request, and for as long as less than its duration has passed
/// since, it is playing rather than completed.
pub proof fn lemma_completed_tone_replays(r: MemoryPlayerRuntime, duration_ms: u32, t: u64, e: u64)
    requires
        r.state == PlayerState::Completed,
        e < duration_ms,
        t + e <= u64::MAX,
    ensures
        reconcile_spec(play_spec(r, t)->0, duration_ms, (t + e) as u64).state == PlayerState::Playing,
        played_ms(play_spec(r, t)->0, (t + e) as u64) == e,
{
}

/// A playing tone completes exactly when the time played reaches its
/// duration: then it stops at its full length; before that it plays on
/// unchanged.
pub proof fn lemma_tone_completes_at_its_duration(r: MemoryPlayerRuntime, duration_ms: u32, now_ms: u64)
    requires
        r.state == PlayerState::Playing,
        r.started_at_ms is Some,
    ensures
        (reconcile_spec(r, duration_ms, now_ms).state == PlayerState::Completed) == (played_ms(r, now_ms)
            >= duration_ms),
        played_ms(r, now_ms) >= duration_ms ==> reconcile_spec(r, duration_ms, now_ms).elapsed_before_pause_ms
            == duration_ms && reconcile_spec(r, duration_ms, now_ms).started_at_ms is None,
        played_ms(r, now_ms) < duration_ms ==> reconcile_spec(r, duration_ms, now_ms) == r,
{
}

/// What a player reports about itself.
#[derive(Debug)]
pub struct AudioPlayerStatus {
    pub backend: String,
    pub duration_ms: u32,
    pub error: Option<String>,
    pub frequency_hz: u32,
    pub id: u32,
    pub source_kind: String,
    pub state: String,
}

/// One player of the service.
#[derive(Debug)]
pub struct AudioPlayer {
    pub id: u32,
    pub last_error: Option<String>,
    pub runtime: MemoryPlayerRuntime,
    pub source: ToneSource,
}

/// The error for an unknown player id.
pub open spec fn unknown_player_text(id: u32) -> Seq<char> {
    "audio op requires a known positive integer id, got "@ + decimal_text(id as nat)
}

/// The error for an unknown player id.
pub fn unknown_player_error(id: u32) -> (r: AudioError)
    ensures
        r.type_error,
        r.message@ == unknown_player_text(id),
{
    let mut msg = String::from_str("audio op requires a known positive integer id, got ");
    append_decimal(&mut msg, id as u64);
    AudioError { type_error: true, message: msg }
}

pub(crate) fn copy_error(e: &Option<String>) -> (r: Option<String>)
    ensures
        r == *e,
{
    match e {
        Some(s) => Some(s.clone()),
        None => None,
    }
}

/// Abstract value of a player: its id, source, runtime and last error.
pub open spec fn player_view(p: AudioPlayer) -> (u32, ToneSource, MemoryPlayerRuntime, Option<String>) {
    (p.id, p.source, p.runtime, p.last_error)
}

/// The service of the memory backend: the backend's name, the next id to
/// hand out and the players by id.
pub struct AudioHostService {
    backend_name: &'static str,
    next_id: u32,
    players: BTreeMap<u32, AudioPlayer>,
}

/// Abstract state of an [`AudioHostService`].
pub struct AudioServiceView {
    pub backend_name: Seq<char>,
    pub next_id: u32,
    pub players: Map<u32, (u32, ToneSource, MemoryPlayerRuntime, Option<String>)>,
}

impl View for AudioHostService {
    type V = AudioServiceView;

    closed spec fn view(&self) -> AudioServiceView {
        AudioServiceView {
            backend_name: self.backend_name@,
            next_id: self.next_id,
            players: self.players@.map_values(|p: AudioPlayer| player_view(p)),
        }
    }
}

/// The status a player reports, as views: backend, length, error, pitch,
/// id, source kind and state name.
pub open spec fn status_view(s: AudioPlayerStatus) -> (Seq<char>, u32, Option<String>, u32, u32, Seq<char>, Seq<char>) {
    (s.backend@, s.duration_ms, s.error, s.frequency_hz, s.id, s.source_kind@, s.state@)
}

/// The status of player `p` (already reconciled) under backend `backend`.
pub open spec fn status_of(backend: Seq<char>, p: (u32, ToneSource, MemoryPlayerRuntime, Option<String>)) -> (
    Seq<char>,
    u32,
    Option<String>,
    u32,
    u32,
    Seq<char>,
    Seq<char>,
) {
    (backend, p.1.duration_ms, p.3, p.1.frequency_hz, p.0, "tone"@, state_name(p.2.state))
}

/// A request on one player.
#[derive(Clone, Copy, Debug, PartialEq, Eq, Structural)]
pub enum PlayerOp {
    Play,
    Pause,
    Stop,
}

/// Player `p` after `op` at `now_ms` (a tone that has run out completes
/// first, except for a stop), or `None` when the player refuses.
pub open spec fn step_player(
    p: (u32, ToneSource, MemoryPlayerRuntime, Option<String>),
    op: PlayerOp,
    now_ms: u64,
) -> Option<(u32, ToneSource, MemoryPlayerRuntime, Option<String>)> {
    let (id, src, rt, err) = p;
    let rt0 = reconcile_spec(rt, src.duration_ms, now_ms);
    match op {
        PlayerOp::Play => match play_spec(rt0, now_ms) {
            Some(n) => Some((id, src, n, None)),
            None => None,
        },
        PlayerOp::Pause => match pause_spec(rt0, now_ms) {
            Some(n) => Some((id, src, n, err)),
            None => None,
        },
        PlayerOp::Stop => match stop_spec(rt) {
            Some(n) => Some((id, src, n, None)),
            None => None,
        },
    }
}

/// Player `p` as its status leaves it: a tone that has run out completes.
pub open spec fn settled(p: (u32, ToneSource, MemoryPlayerRuntime, Option<String>), now_ms: u64) -> (
    u32,
    ToneSource,
    MemoryPlayerRuntime,
    Option<String>,
) {
    (p.0, p.1, reconcile_spec(p.2, p.1.duration_ms, now_ms), p.3)
}

impl AudioHostService {
    /// A service of the memory backend with no players; the first player
    /// gets id 1.
    pub fn new() -> (r: Self)
        ensures
            r@.backend_name == "memory"@,
            r@.next_id == 1,
            r@.players == Map::<u32, (u32, ToneSource, MemoryPlayerRuntime, Option<String>)>::empty(),
    {
        let r = AudioHostService { backend_name: "memory", next_id: 1, players: BTreeMap::new() };
        assert(r@.players =~= Map::<u32, (u32, ToneSource, MemoryPlayerRuntime, Option<String>)>::empty());
        r
    }

    /// Reconciles `player` and reports its status.
    fn status(&self, player: &mut AudioPlayer, now_ms: u64) -> (r: AudioPlayerStatus)
        ensures
            player_view(*final(player)) == settled(player_view(*old(player)), now_ms),
            status_view(r) == status_of(self@.backend_name, player_view(*final(player))),
    {
        player.runtime.reconcile(&player.source, now_ms);
        AudioPlayerStatus {
            backend: String::from_str(self.backend_name),
            duration_ms: player.source.duration_ms,
            error: copy_error(&player.last_error),
            frequency_hz: player.source.frequency_hz,
            id: player.id,
            source_kind: String::from_str("tone"),
            state: String::from_str(player.runtime.state.as_str()),
        }
    }

    /// Creates an idle player for `request` under the next id and reports
    /// its status; refused for a bad source or when ids have run out.
    pub fn create_player(&mut self, request: AudioSourceRequest, now_ms: u64) -> (r: Result<AudioPlayerStatus, AudioError>)
        ensures
            final(self)@.backend_name == old(self)@.backend_name,
            tone_for(request) is None ==> r is Err && final(self)@ == old(self)@,
            tone_for(request) is Some && old(self)@.next_id == u32::MAX ==> (r matches Err(e) && e.message@
                == "audio.createPlayer exhausted player ids"@) && final(self)@ == old(self)@,
            tone_for(request) is Some && old(self)@.next_id < u32::MAX ==> {
                let id = old(self)@.next_id;
                let p = settled((id, tone_for(request)->0, fresh_runtime(), None::<String>), now_ms);
                &&& final(self)@.next_id == id + 1
                &&& final(self)@.players == old(self)@.players.insert(id, p)
                &&& r matches Ok(status) && status_view(status) == status_of(old(self)@.backend_name, p)
            },
    {
        let source = match ToneSource::try_from(request) {
            Ok(s) => s,
            Err(e) => return Err(e),
        };
        let id = self.next_id;
        if self.next_id == u32::MAX {
            return Err(general_error("audio.createPlayer exhausted player ids"));
        }
        self.next_id = self.next_id + 1;
        let mut player = AudioPlayer { id, last_error: None, runtime: MemoryPlayerRuntime::new(), source };
        let status = self.status(&mut player, now_ms);
        let ghost pv = player_view(player);
        self.players.insert(id, player);
        assert(self@.players =~= old(self)@.players.insert(id, pv));
        Ok(status)
    }

    /// Plays, pauses or stops player `id` and reports its status.
    pub fn apply(&mut self, id: u32, op: PlayerOp, now_ms: u64) -> (r: Result<AudioPlayerStatus, AudioError>)
        ensures
            final(self)@.backend_name == old(self)@.backend_name,
            final(self)@.next_id == old(self)@.next_id,
            !old(self)@.players.contains_key(id) ==> (r matches Err(e) && e.type_error && e.message@
                == unknown_player_text(id)) && final(self)@ == old(self)@,
            old(self)@.players.contains_key(id) ==> match step_player(old(self)@.players[id], op, now_ms) {
                Some(n) => {
                    &&& final(self)@.players == old(self)@.players.insert(id, settled(n, now_ms))
                    &&& r matches Ok(s) && status_view(s) == status_of(old(self)@.backend_name, settled(n, now_ms))
                },
                None => r is Err && final(self)@ == old(self)@,
            },
    {
        let mut player = match self.players.remove(&id) {
            Some(p) => p,
            None => {
                assert(self@ == old(self)@) by {
                    assert(self@.players =~= old(self)@.players);
                }
                return Err(unknown_player_error(id));
            },
        };
        let ghost before = player_view(player);
        assert(old(self)@.players[id] == before);
        let result = match op {
            PlayerOp::Play => {
                player.runtime.reconcile(&player.source, now_ms);
                player.runtime.play(now_ms, &mut player.last_error)
            },
            PlayerOp::Pause => {
                player.runtime.reconcile(&player.source, now_ms);
                player.runtime.pause(now_ms)
            },
            PlayerOp::Stop => player.runtime.stop(&mut player.last_error),
        };
        match result {
            Ok(()) => {
                let ghost stepped = player_view(player);
                assert(step_player(before, op, now_ms) == Some(stepped));
                let status = self.status(&mut player, now_ms);
                let ghost pv = player_view(player);
                self.players.insert(id, player);
                assert(self@.players =~= old(self)@.players.insert(id, pv));
                Ok(status)
            },
            Err(e) => {
                let ghost pv = player_view(player);
                assert(step_player(before, op, now_ms) is None);
                assert(pv == before);
                self.players.insert(id, player);
                assert(self@.players =~= old(self)@.players);
                Err(e)
            },
        }
    }

    /// Reports the status of player `id`.
    pub fn status_for(&mut self, id: u32, now_ms: u64) -> (r: Result<AudioPlayerStatus, AudioError>)
        ensures
            final(self)@.backend_name == old(self)@.backend_name,
            final(self)@.next_id == old(self)@.next_id,
            !old(self)@.players.contains_key(id) ==> (r matches Err(e) && e.type_error && e.message@
                == unknown_player_text(id)) && final(self)@ == old(self)@,
            old(self)@.players.contains_key(id) ==> {
                let p = settled(old(self)@.players[id], now_ms);
                &&& final(self)@.players == old(self)@.players.insert(id, p)
                &&& r matches Ok(s) && status_view(s) == status_of(old(self)@.backend_name, p)
            },
    {
        let mut player = match self.players.remove(&id) {
            Some(p) => p,
            None => {
                assert(self@.players =~= old(self)@.players);
                return Err(unknown_player_error(id));
            },
        };
        let status = self.status(&mut player, now_ms);
        let ghost pv = player_view(player);
        self.players.insert(id, player);
        assert(self@.players =~= old(self)@.players.insert(id, pv));
        Ok(status)
    }

    /// Releases player `id`: it is stopped for good and forgotten, and its
    /// final status reported.
    pub fn release(&mut self, id: u32, now_ms: u64) -> (r: Result<AudioPlayerStatus, AudioError>)
        ensures
            final(self)@.backend_name == old(self)@.backend_name,
            final(self)@.next_id == old(self)@.next_id,
            !old(self)@.players.contains_key(id) ==> (r matches Err(e) && e.type_error && e.message@
                == unknown_player_text(id)) && final(self)@ == old(self)@,
            old(self)@.players.contains_key(id) ==> {
                let (pid, src, rt, err) = old(self)@.players[id];
                &&& final(self)@.players == old(self)@.players.remove(id)
                &&& match stop_spec(rt) {
                    Some(n) => r matches Ok(s) && status_view(s) == status_of(
                        old(self)@.backend_name,
                        (pid, src, MemoryPlayerRuntime { state: PlayerState::Released, ..n }, None::<String>),
                    ),
                    None => r is Err,
                }
            },
    {
        let mut player = match self.players.remove(&id) {
            Some(p) => p,
            None => {
                assert(self@.players =~= old(self)@.players);
                return Err(unknown_player_error(id));
            },
        };
        assert(self@.players =~= old(self)@.players.remove(id));
        match player.runtime.release(&mut player.last_error) {
            Ok(()) => {},
            Err(e) => return Err(e),
        }
        Ok(self.status(&mut player, now_ms))
    }
}

/// Ids are handed out in increasing order and never reused: a new player
/// gets the next id, which no current player has, as long as every
/// player's id is below the next one.
pub proof fn lemma_fresh_ids(s: AudioServiceView, request: AudioSourceRequest, now_ms: u64)
    requires
        forall|k: u32| #[trigger] s.players.contains_key(k) ==> k < s.next_id,
        s.next_id < u32::MAX,
        tone_for(request) is Some,
    ensures
        !s.players.contains_key(s.next_id),
        ({
            let after = s.players.insert(s.next_id, settled((s.next_id, tone_for(request)->0, fresh_runtime(), None::<String>), now_ms));
            forall|k: u32| #[trigger] after.contains_key(k) ==> k < s.next_id + 1
        }),
{
}

} // verus!
