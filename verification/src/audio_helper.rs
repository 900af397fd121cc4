//! Players of the helper backend: each tone is played by a helper program
//! that the host starts, suspends, resumes and kills. The decisions are
//! made here, one outside step at a time; the caller performs each step on
//! the process and hands back what came of it.
use crate::audio::{
    copy_error, general_error, state_name, tone_for, unknown_player_error, unknown_player_text, AudioBackend,
    AudioError, AudioHostService, AudioPlayerStatus, AudioSourceRequest, PlayerState, ToneSource,
};
use crate::text::{append_decimal, decimal_text};
use std::collections::BTreeMap;
use vstd::prelude::*;
use vstd::string::*;

verus! {

broadcast use {vstd::std_specs::btree::group_btree_axioms, vstd::laws_cmp::group_laws_cmp};

/// A helper-backed player: where it is in its life, and whether a helper
/// process is running for it.
#[derive(Clone, Copy, Debug, PartialEq, Eq, Structural)]
pub struct HelperPlayerRuntime {
    pub state: PlayerState,
    pub helper_running: bool,
}

/// What a non-blocking wait on the running helper found.
#[derive(Debug)]
pub enum HelperWait {
    Running,
    Exited { success: bool, status: String },
    WaitFailed(String),
}

/// What killing and reaping the running helper came to.
#[derive(Debug)]
pub enum HelperKill {
    Reaped,
    KillFailed(String),
    WaitFailed(String),
}

/// What sending a signal to the running helper came to.
#[derive(Debug)]
pub enum HelperSignal {
    Sent,
    /// The helper's process id does not fit a signed process id.
    InvalidPid,
    Failed { signal: u32, pid: u32, os_error: String },
}

/// How a play request proceeds once it is not refused.
#[derive(Clone, Copy, Debug, PartialEq, Eq, Structural)]
pub enum HelperPlay {
    /// Send the suspended helper `SIGCONT`, then report with `resumed`.
    Resume,
    /// Stop the player (killing its helper if one runs) with `stopped`,
    /// then start a new helper and report with `spawned`.
    Restart,
}

pub open spec fn exit_text(status: Seq<char>) -> Seq<char> {
    "linux spike helper exited with status "@ + status
}

pub open spec fn wait_failure_text(e: Seq<char>) -> Seq<char> {
    "audio.getStatus wait linux spike helper: "@ + e
}

pub open spec fn signal_failure_text(signal: HelperSignal) -> Seq<char> {
    match signal {
        HelperSignal::InvalidPid => "audio backend produced an invalid child pid"@,
        HelperSignal::Failed { signal, pid, os_error } => "audio backend send signal "@ + decimal_text(signal as nat)
            + " to pid "@ + decimal_text(pid as nat) + ": "@ + os_error@,
        HelperSignal::Sent => Seq::empty(),
    }
}

pub open spec fn kill_failure_text(kill: HelperKill) -> Seq<char> {
    match kill {
        HelperKill::KillFailed(e) => "audio.stop kill player: "@ + e@,
        HelperKill::WaitFailed(e) => "audio.stop wait player: "@ + e@,
        HelperKill::Reaped => Seq::empty(),
    }
}

pub open spec fn spawn_failure_text(e: Seq<char>) -> Seq<char> {
    "audio.play spawn linux spike helper: "@ + e
}

/// The player after a wait on its running helper, and the last error.
pub open spec fn waited_spec(r: HelperPlayerRuntime, wait: HelperWait, last_error: Option<String>) -> (
    HelperPlayerRuntime,
    Option<Seq<char>>,
) {
    let old_error = match last_error {
        Some(e) => Some(e@),
        None => None,
    };
    match wait {
        HelperWait::Running => (r, old_error),
        HelperWait::Exited { success, status } => if success {
            (HelperPlayerRuntime { state: PlayerState::Completed, helper_running: false }, None)
        } else {
            (HelperPlayerRuntime { state: PlayerState::Error, helper_running: false }, Some(exit_text(status@)))
        },
        HelperWait::WaitFailed(e) => (
            HelperPlayerRuntime { state: PlayerState::Error, helper_running: false },
            Some(wait_failure_text(e@)),
        ),
    }
}

pub open spec fn error_view(e: Option<String>) -> Option<Seq<char>> {
    match e {
        Some(s) => Some(s@),
        None => None,
    }
}

/// The player after a stop, given what stopping its helper came to
/// (`None` when none ran): the helper is gone either way; a failure is
/// reported and changes nothing else; otherwise the player is stopped (a
/// released one stays released) and its error cleared.
pub open spec fn stopped_spec(r: HelperPlayerRuntime, kill: Option<HelperKill>) -> (HelperPlayerRuntime, bool) {
    match kill {
        Some(HelperKill::KillFailed(_)) => (HelperPlayerRuntime { helper_running: false, ..r }, false),
        Some(HelperKill::WaitFailed(_)) => (HelperPlayerRuntime { helper_running: false, ..r }, false),
        _ => (
            HelperPlayerRuntime {
                state: if r.state == PlayerState::Released {
                    PlayerState::Released
                } else {
                    PlayerState::Stopped
                },
                helper_running: false,
            },
            true,
        ),
    }
}

/// A released helper player stays released: a stop, whatever came of
/// killing its helper, leaves it released and without a helper.
pub proof fn lemma_released_helper_player_is_final(r: HelperPlayerRuntime, kill: Option<HelperKill>)
    requires
        r.state == PlayerState::Released,
    ensures
        stopped_spec(r, kill).0.state == PlayerState::Released,
        !stopped_spec(r, kill).0.helper_running,
{
}

/// The environment a helper is started with: the tone's length and pitch.
pub open spec fn helper_env_spec(source: ToneSource) -> Seq<(Seq<char>, Seq<char>)> {
    seq![
        ("SHADOW_AUDIO_SPIKE_DURATION_MS"@, decimal_text(source.duration_ms as nat)),
        ("SHADOW_AUDIO_SPIKE_FREQUENCY_HZ"@, decimal_text(source.frequency_hz as nat)),
    ]
}

/// The environment a helper is started with.
pub fn helper_env(source: &ToneSource) -> (r: Vec<(String, String)>)
    ensures
        r@.map_values(|p: (String, String)| (p.0@, p.1@)) == helper_env_spec(*source),
{
    let mut duration = String::new();
    append_decimal(&mut duration, source.duration_ms as u64);
    let mut frequency = String::new();
    append_decimal(&mut frequency, source.frequency_hz as u64);
    let mut env: Vec<(String, String)> = Vec::new();
    env.push((String::from_str("SHADOW_AUDIO_SPIKE_DURATION_MS"), duration));
    env.push((String::from_str("SHADOW_AUDIO_SPIKE_FREQUENCY_HZ"), frequency));
    assert(env@.map_values(|p: (String, String)| (p.0@, p.1@)) =~= helper_env_spec(*source));
    env
}

fn signal_error(signal: &HelperSignal) -> (r: AudioError)
    requires
        !(signal is Sent),
    ensures
        !r.type_error,
        r.message@ == signal_failure_text(*signal),
{
    match signal {
        HelperSignal::InvalidPid => general_error("audio backend produced an invalid child pid"),
        HelperSignal::Failed { signal, pid, os_error } => {
            let mut msg = String::from_str("audio backend send signal ");
            append_decimal(&mut msg, *signal as u64);
            msg.append(" to pid ");
            append_decimal(&mut msg, *pid as u64);
            msg.append(": ");
            msg.append(os_error.as_str());
            AudioError { type_error: false, message: msg }
        },
        HelperSignal::Sent => general_error(""),
    }
}

fn prefixed(prefix: &str, text: &str) -> (r: String)
    ensures
        r@ == prefix@ + text@,
{
    let mut s = String::from_str(prefix);
    s.append(text);
    s
}

impl HelperPlayerRuntime {
    /// An idle player with no helper.
    pub fn new() -> (r: Self)
        ensures
            r == (HelperPlayerRuntime { state: PlayerState::Idle, helper_running: false }),
    {
        HelperPlayerRuntime { state: PlayerState::Idle, helper_running: false }
    }

    /// Takes in what a wait on the running helper found: a helper that
    /// exited completes the player (or fails it, with the exit status as
    /// the error).
    pub fn waited(&mut self, wait: HelperWait, last_error: &mut Option<String>)
        requires
            old(self).helper_running,
        ensures
            (*final(self), error_view(*final(last_error))) == waited_spec(*old(self), wait, *old(last_error)),
    {
        match wait {
            HelperWait::Running => {},
            HelperWait::Exited { success, status } => {
                self.helper_running = false;
                if success {
                    self.state = PlayerState::Completed;
                    *last_error = None;
                } else {
                    self.state = PlayerState::Error;
                    *last_error = Some(prefixed("linux spike helper exited with status ", status.as_str()));
                }
            },
            HelperWait::WaitFailed(e) => {
                self.helper_running = false;
                self.state = PlayerState::Error;
                *last_error = Some(prefixed("audio.getStatus wait linux spike helper: ", e.as_str()));
            },
        }
    }

    /// How a play request proceeds: refused once released; a suspended
    /// helper is resumed; otherwise the tone restarts with a new helper.
    pub fn play_plan(&self) -> (r: Result<HelperPlay, AudioError>)
        ensures
            self.state == PlayerState::Released ==> (r matches Err(e) && !e.type_error && e.message@
                == "audio.play cannot resume a released player"@),
            self.state != PlayerState::Released && self.state == PlayerState::Paused && self.helper_running
                ==> r == Ok::<HelperPlay, AudioError>(HelperPlay::Resume),
            self.state != PlayerState::Released && !(self.state == PlayerState::Paused && self.helper_running)
                ==> r == Ok::<HelperPlay, AudioError>(HelperPlay::Restart),
    {
        if self.state == PlayerState::Released {
            return Err(general_error("audio.play cannot resume a released player"));
        }
        if self.state == PlayerState::Paused && self.helper_running {
            Ok(HelperPlay::Resume)
        } else {
            Ok(HelperPlay::Restart)
        }
    }

    /// Takes in what sending `SIGCONT` to the suspended helper came to:
    /// on success the player plays again and its error is cleared.
    pub fn resumed(&mut self, signal: HelperSignal, last_error: &mut Option<String>) -> (r: Result<(), AudioError>)
        requires
            old(self).state == PlayerState::Paused,
            old(self).helper_running,
        ensures
            signal is Sent ==> r is Ok && *final(self) == (HelperPlayerRuntime {
                state: PlayerState::Playing,
                helper_running: true,
            }) && *final(last_error) == None::<String>,
            !(signal is Sent) ==> (r matches Err(e) && !e.type_error && e.message@ == signal_failure_text(signal))
                && *final(self) == *old(self) && *final(last_error) == *old(last_error),
    {
        match signal {
            HelperSignal::Sent => {
                self.state = PlayerState::Playing;
                *last_error = None;
                Ok(())
            },
            _ => Err(signal_error(&signal)),
        }
    }

    /// Takes in what stopping the helper came to (`None` when none ran).
    pub fn stopped(&mut self, kill: Option<HelperKill>, last_error: &mut Option<String>) -> (r: Result<(), AudioError>)
        requires
            kill is Some <==> old(self).helper_running,
        ensures
            *final(self) == stopped_spec(*old(self), kill).0,
            stopped_spec(*old(self), kill).1 ==> r is Ok && *final(last_error) == None::<String>,
            !stopped_spec(*old(self), kill).1 ==> (r matches Err(e) && !e.type_error && e.message@
                == kill_failure_text(kill->0)) && *final(last_error) == *old(last_error),
    {
        self.helper_running = false;
        match kill {
            Some(HelperKill::KillFailed(e)) => {
                return Err(AudioError { type_error: false, message: prefixed("audio.stop kill player: ", e.as_str()) });
            },
            Some(HelperKill::WaitFailed(e)) => {
                return Err(AudioError { type_error: false, message: prefixed("audio.stop wait player: ", e.as_str()) });
            },
            _ => {},
        }
        if self.state != PlayerState::Released {
            self.state = PlayerState::Stopped;
        }
        *last_error = None;
        Ok(())
    }

    /// Takes in what starting a new helper came to: on success the player
    /// plays and its error is cleared.
    pub fn spawned(&mut self, spawn: Result<(), String>, last_error: &mut Option<String>) -> (r: Result<(), AudioError>)
        requires
            !old(self).helper_running,
        ensures
            spawn is Ok ==> r is Ok && *final(self) == (HelperPlayerRuntime {
                state: PlayerState::Playing,
                helper_running: true,
            }) && *final(last_error) == None::<String>,
            spawn matches Err(m) ==> (r matches Err(e) && !e.type_error && e.message@ == spawn_failure_text(m@))
                && *final(self) == *old(self) && *final(last_error) == *old(last_error),
    {
        match spawn {
            Ok(()) => {
                self.state = PlayerState::Playing;
                self.helper_running = true;
                *last_error = None;
                Ok(())
            },
            Err(m) => Err(AudioError {
                type_error: false,
                message: prefixed("audio.play spawn linux spike helper: ", m.as_str()),
            }),
        }
    }

    /// Whether a pause request suspends the helper (`SIGSTOP`): only a
    /// playing player with a running helper; refused once released.
    pub fn pause_plan(&self) -> (r: Result<bool, AudioError>)
        ensures
            self.state == PlayerState::Released ==> (r matches Err(e) && !e.type_error && e.message@
                == "audio.pause cannot target a released player"@),
            self.state != PlayerState::Released ==> r == Ok::<bool, AudioError>(
                self.state == PlayerState::Playing && self.helper_running,
            ),
    {
        if self.state == PlayerState::Released {
            return Err(general_error("audio.pause cannot target a released player"));
        }
        Ok(self.state == PlayerState::Playing && self.helper_running)
    }

    /// Takes in what sending `SIGSTOP` to the playing helper came to.
    pub fn suspended(&mut self, signal: HelperSignal) -> (r: Result<(), AudioError>)
        requires
            old(self).state == PlayerState::Playing,
            old(self).helper_running,
        ensures
            signal is Sent ==> r is Ok && *final(self) == (HelperPlayerRuntime {
                state: PlayerState::Paused,
                helper_running: true,
            }),
            !(signal is Sent) ==> (r matches Err(e) && !e.type_error && e.message@ == signal_failure_text(signal))
                && *final(self) == *old(self),
    {
        match signal {
            HelperSignal::Sent => {
                self.state = PlayerState::Paused;
                Ok(())
            },
            _ => Err(signal_error(&signal)),
        }
    }

    /// Takes in what stopping the helper came to and releases the player
    /// for good, unless the stop failed.
    pub fn released(&mut self, kill: Option<HelperKill>, last_error: &mut Option<String>) -> (r: Result<(), AudioError>)
        requires
            kill is Some <==> old(self).helper_running,
        ensures
            stopped_spec(*old(self), kill).1 ==> r is Ok && *final(self) == (HelperPlayerRuntime {
                state: PlayerState::Released,
                helper_running: false,
            }) && *final(last_error) == None::<String>,
            !stopped_spec(*old(self), kill).1 ==> (r matches Err(e) && !e.type_error && e.message@
                == kill_failure_text(kill->0)) && *final(self) == stopped_spec(*old(self), kill).0
                && *final(last_error) == *old(last_error),
    {
        match self.stopped(kill, last_error) {
            Ok(()) => {},
            Err(e) => return Err(e),
        }
        self.state = PlayerState::Released;
        Ok(())
    }
}


/// One player of the helper backend.
#[derive(Debug)]
pub struct HelperPlayer {
    pub id: u32,
    pub last_error: Option<String>,
    pub runtime: HelperPlayerRuntime,
    pub source: ToneSource,
}

/// Abstract value of a helper player: id, source, runtime, last error.
pub open spec fn helper_player_view(p: HelperPlayer) -> (u32, ToneSource, HelperPlayerRuntime, Option<String>) {
    (p.id, p.source, p.runtime, p.last_error)
}

/// The status a helper player reports, as views.
pub open spec fn helper_status_of(p: (u32, ToneSource, HelperPlayerRuntime, Option<String>)) -> (
    Seq<char>,
    u32,
    Option<String>,
    u32,
    u32,
    Seq<char>,
    Seq<char>,
) {
    ("linux_spike"@, p.1.duration_ms, p.3, p.1.frequency_hz, p.0, "tone"@, state_name(p.2.state))
}

/// The service of the helper backend: the helper program, the next id to
/// hand out and the players by id. A player taken out for an operation is
/// put back afterwards, unless it was released.
pub struct HelperAudioHost {
    binary_path: String,
    next_id: u32,
    players: BTreeMap<u32, HelperPlayer>,
}

/// Abstract state of a [`HelperAudioHost`].
pub struct HelperHostView {
    pub binary_path: Seq<char>,
    pub next_id: u32,
    pub players: Map<u32, (u32, ToneSource, HelperPlayerRuntime, Option<String>)>,
}

impl View for HelperAudioHost {
    type V = HelperHostView;

    closed spec fn view(&self) -> HelperHostView {
        HelperHostView {
            binary_path: self.binary_path@,
            next_id: self.next_id,
            players: self.players@.map_values(|p: HelperPlayer| helper_player_view(p)),
        }
    }
}

/// A fresh helper player for `source` under `id`.
pub open spec fn fresh_helper_player(id: u32, source: ToneSource) -> (u32, ToneSource, HelperPlayerRuntime, Option<String>) {
    (id, source, HelperPlayerRuntime { state: PlayerState::Idle, helper_running: false }, None)
}

impl HelperAudioHost {
    /// A service running `binary_path` for each tone, with no players; the
    /// first player gets id 1.
    pub fn new(binary_path: String) -> (r: Self)
        ensures
            r@.binary_path == binary_path@,
            r@.next_id == 1,
            r@.players == Map::<u32, (u32, ToneSource, HelperPlayerRuntime, Option<String>)>::empty(),
    {
        let r = HelperAudioHost { binary_path, next_id: 1, players: BTreeMap::new() };
        assert(r@.players =~= Map::<u32, (u32, ToneSource, HelperPlayerRuntime, Option<String>)>::empty());
        r
    }

    /// The helper program.
    pub fn binary_path(&self) -> (r: &str)
        ensures
            r@ == self@.binary_path,
    {
        self.binary_path.as_str()
    }

    /// The status of `player`.
    pub fn status(&self, player: &HelperPlayer) -> (r: AudioPlayerStatus)
        ensures
            (r.backend@, r.duration_ms, r.error, r.frequency_hz, r.id, r.source_kind@, r.state@) == helper_status_of(
                helper_player_view(*player),
            ),
    {
        AudioPlayerStatus {
            backend: String::from_str("linux_spike"),
            duration_ms: player.source.duration_ms,
            error: copy_error(&player.last_error),
            frequency_hz: player.source.frequency_hz,
            id: player.id,
            source_kind: String::from_str("tone"),
            state: String::from_str(player.runtime.state.as_str()),
        }
    }

    /// Creates an idle player with no helper for `request` under the next
    /// id and reports its status; refused for a bad source or when ids have
    /// run out.
    pub fn create_player(&mut self, request: AudioSourceRequest) -> (r: Result<AudioPlayerStatus, AudioError>)
        ensures
            final(self)@.binary_path == old(self)@.binary_path,
            tone_for(request) is None ==> r is Err && final(self)@ == old(self)@,
            tone_for(request) is Some && old(self)@.next_id == u32::MAX ==> (r matches Err(e) && e.message@
                == "audio.createPlayer exhausted player ids"@) && final(self)@ == old(self)@,
            tone_for(request) is Some && old(self)@.next_id < u32::MAX ==> {
                let id = old(self)@.next_id;
                let p = fresh_helper_player(id, tone_for(request)->0);
                &&& final(self)@.next_id == id + 1
                &&& final(self)@.players == old(self)@.players.insert(id, p)
                &&& r matches Ok(s) && (s.backend@, s.duration_ms, s.error, s.frequency_hz, s.id, s.source_kind@, s.state@)
                    == helper_status_of(p)
            },
    {
        let source = match ToneSource::try_from(request) {
            Ok(s) => s,
            Err(e) => return Err(e),
        };
        let id = self.next_id;
        if self.next_id == u32::MAX {
            return Err(general_error("audio.createPlayer exhausted player ids"));
        }
        self.next_id = self.next_id + 1;
        let player = HelperPlayer { id, last_error: None, runtime: HelperPlayerRuntime::new(), source };
        let status = self.status(&player);
        let ghost pv = helper_player_view(player);
        self.players.insert(id, player);
        assert(self@.players =~= old(self)@.players.insert(id, pv));
        Ok(status)
    }

    /// Takes player `id` out for an operation.
    pub fn take_player(&mut self, id: u32) -> (r: Result<HelperPlayer, AudioError>)
        ensures
            final(self)@.binary_path == old(self)@.binary_path,
            final(self)@.next_id == old(self)@.next_id,
            !old(self)@.players.contains_key(id) ==> (r matches Err(e) && e.type_error && e.message@
                == unknown_player_text(id)) && final(self)@ == old(self)@,
            old(self)@.players.contains_key(id) ==> (r matches Ok(p) && helper_player_view(p) == old(self)@.players[id])
                && final(self)@.players == old(self)@.players.remove(id),
    {
        match self.players.remove(&id) {
            Some(p) => {
                assert(self@.players =~= old(self)@.players.remove(id));
                Ok(p)
            },
            None => {
                assert(self@.players =~= old(self)@.players);
                Err(unknown_player_error(id))
            },
        }
    }

    /// Puts a player back after an operation.
    pub fn restore_player(&mut self, player: HelperPlayer)
        ensures
            final(self)@.binary_path == old(self)@.binary_path,
            final(self)@.next_id == old(self)@.next_id,
            final(self)@.players == old(self)@.players.insert(player.id, helper_player_view(player)),
    {
        let ghost pv = helper_player_view(player);
        let id = player.id;
        self.players.insert(id, player);
        assert(self@.players =~= old(self)@.players.insert(id, pv));
    }
}

/// The audio service of either backend.
pub enum AudioHost {
    Memory(AudioHostService),
    Helper(HelperAudioHost),
}

impl AudioHost {
    /// The service for `backend`: players that only keep time, or players
    /// that each run the helper program.
    pub fn new(backend: AudioBackend) -> (r: Self)
        ensures
            backend is Memory ==> (r matches AudioHost::Memory(s) && s@.backend_name == "memory"@ && s@.next_id == 1
                && s@.players.is_empty()),
            backend matches AudioBackend::LinuxSpike { binary_path } ==> (r matches AudioHost::Helper(h)
                && h@.binary_path == binary_path@ && h@.next_id == 1 && h@.players.is_empty()),
    {
        match backend {
            AudioBackend::Memory => AudioHost::Memory(AudioHostService::new()),
            AudioBackend::LinuxSpike { binary_path } => AudioHost::Helper(HelperAudioHost::new(binary_path)),
        }
    }
}

} // verus!
