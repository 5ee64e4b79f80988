//! The call: what each command does, when the noise gate opens, who is heard, and how
//! sound is cut into frames.

use crate::protocol::{CaptureSettings, Id, ShareTarget, VoiceCmd};
use crate::state::{AppState, AudioState, ConnectionHealth, SelfVoice, VoicePhase};
use crate::table::TextTable;
use crate::text::same;
use std::collections::VecDeque;
use vstd::prelude::*;
use vstd::string::*;

verus! {

/// Frames the noise gate stays open behind the last loud one.
pub const GATE_HANGOVER_FRAMES: u32 = 30;

/// The part of the opening level above which an open gate holds, in percent.
pub const GATE_CLOSE_RATIO_PCT: i32 = 50;

/// What is left of the envelope after a frame, in percent.
pub const GATE_ENVELOPE_DECAY_PCT: i32 = 75;

pub const DENOISE_ATTEN_LIM_DB_MIN: u32 = 6;

pub const DENOISE_ATTEN_LIM_DB_MAX: u32 = 60;

/// What becomes of a frame at the noise gate.
#[derive(Debug, Clone, Copy, PartialEq, Eq, Structural)]
pub enum GateAction {
    Pass,
    RampIn,
    RampOut,
    Drop,
}

/// The noise gate before the microphone's frames are sent.
#[derive(Debug)]
pub struct GateState {
    pub hangover: u32,
    pub envelope: i32,
    pub was_open: bool,
}

/// The largest envelope, either way, of which a part can be computed.
pub const GATE_LEVEL_MAX: i32 = 28_633_115;

/// The largest opening level, either way, of which a part can be computed.
pub const GATE_OPEN_MAX: i32 = 42_949_672;

/// Whether a level is one of which a part can be computed.
pub open spec fn is_level(x: i32) -> bool {
    -GATE_LEVEL_MAX <= x <= GATE_LEVEL_MAX
}

/// A part of a level in percent, rounded toward zero.
pub open spec fn part(x: int, pct: int) -> int {
    if x >= 0 {
        x * pct / 100
    } else {
        -(-x * pct / 100)
    }
}

fn part_of(x: i32, pct: i32) -> (r: i32)
    requires
        0 <= pct <= 100,
        -i32::MAX <= x * pct <= i32::MAX,
        -i32::MAX <= x,
    ensures
        r == part(x as int, pct as int),
{
    if x >= 0 {
        x * pct / 100
    } else {
        let y: i32 = -x;
        assert(y * pct == -(x * pct)) by (nonlinear_arith)
            requires
                y == -x,
        ;
        -(y * pct / 100)
    }
}

/// The envelope after a frame: its peak, or what is left of the envelope.
pub open spec fn next_envelope(envelope: int, peak: int) -> int {
    let decayed = part(envelope, GATE_ENVELOPE_DECAY_PCT as int);
    if peak >= decayed {
        peak
    } else {
        decayed
    }
}

/// The level that has to be passed: lower while the noise gate is held open.
pub open spec fn bar(hangover: u32, open_at: int) -> int {
    if hangover > 0 {
        part(open_at, GATE_CLOSE_RATIO_PCT as int)
    } else {
        open_at
    }
}

/// The noise gate after a frame.
pub open spec fn stepped(g: GateState, peak: i32, open_at: i32) -> GateState {
    let envelope = next_envelope(g.envelope as int, peak as int);
    let hangover: u32 = if envelope > bar(g.hangover, open_at as int) {
        GATE_HANGOVER_FRAMES
    } else if g.hangover > 0 {
        (g.hangover - 1) as u32
    } else {
        0
    };
    GateState { hangover, envelope: envelope as i32, was_open: hangover > 0 }
}

/// What becomes of a frame between two states of the noise gate.
pub open spec fn action_between(was_open: bool, open: bool) -> GateAction {
    match (was_open, open) {
        (true, true) => GateAction::Pass,
        (false, true) => GateAction::RampIn,
        (true, false) => GateAction::RampOut,
        (false, false) => GateAction::Drop,
    }
}

impl Default for GateState {
    fn default() -> (r: GateState)
        ensures
            r == (GateState { hangover: 0, envelope: 0, was_open: false }),
    {
        GateState { hangover: 0, envelope: 0, was_open: false }
    }
}

impl GateState {
    /// Forgets everything that was heard.
    pub fn silence(&mut self)
        ensures
            *final(self) == (GateState { hangover: 0, envelope: 0, was_open: false }),
    {
        *self = GateState { hangover: 0, envelope: 0, was_open: false };
    }

    /// Judges a frame by its peak and the level at which the noise gate opens.
    pub fn step(&mut self, peak: i32, open_at: i32) -> (r: GateAction)
        requires
            is_level(old(self).envelope),
            -GATE_OPEN_MAX <= open_at <= GATE_OPEN_MAX,
        ensures
            *final(self) == stepped(*old(self), peak, open_at),
            r == action_between(old(self).was_open, final(self).was_open),
            is_level(peak) ==> is_level(final(self).envelope),
    {
        let decayed: i32 = part_of(self.envelope, GATE_ENVELOPE_DECAY_PCT);
        let envelope: i32 = if peak >= decayed {
            peak
        } else {
            decayed
        };
        let bar: i32 = if self.hangover > 0 {
            part_of(open_at, GATE_CLOSE_RATIO_PCT)
        } else {
            open_at
        };
        let hangover: u32 = if envelope > bar {
            GATE_HANGOVER_FRAMES
        } else if self.hangover > 0 {
            self.hangover - 1
        } else {
            0
        };
        let was_open: bool = self.was_open;
        let open: bool = hangover > 0;
        *self = GateState { hangover, envelope, was_open: open };
        match (was_open, open) {
            (true, true) => GateAction::Pass,
            (false, true) => GateAction::RampIn,
            (true, false) => GateAction::RampOut,
            (false, false) => GateAction::Drop,
        }
    }
}

/// Whether a frame is heard by the others.
pub fn is_open(action: GateAction) -> (r: bool)
    ensures
        r == (action == GateAction::Pass || action == GateAction::RampIn),
{
    match action {
        GateAction::Pass => true,
        GateAction::RampIn => true,
        GateAction::RampOut => false,
        GateAction::Drop => false,
    }
}

/// Judges a frame of the microphone by its peak as it came, or by its peak as it was
/// filtered or amplified. While muted everything is dropped and forgotten.
pub fn judge_frame(
    gate: &mut GateState,
    muted: bool,
    peak: i32,
    treated: Option<i32>,
    open_at: i32,
) -> (r: GateAction)
    requires
        is_level(old(gate).envelope),
        -GATE_OPEN_MAX <= open_at <= GATE_OPEN_MAX,
    ensures
        muted ==> r == GateAction::Drop && *final(gate) == (GateState {
            hangover: 0,
            envelope: 0,
            was_open: false,
        }),
        !muted ==> *final(gate) == stepped(
            *old(gate),
            match treated {
                Some(p) => p,
                None => peak,
            },
            open_at,
        ),
        !muted ==> r == action_between(old(gate).was_open, final(gate).was_open),
{
    if muted {
        gate.silence();
        return GateAction::Drop;
    }
    match treated {
        Some(p) => gate.step(p, open_at),
        None => gate.step(peak, open_at),
    }
}

/// The envelope never reads below the frame, and never above both the frame and
/// what it was.
pub proof fn envelope_follows(g: GateState, peak: i32, open_at: i32)
    requires
        g.envelope >= 0,
    ensures
        stepped(g, peak, open_at).envelope >= peak,
        stepped(g, peak, open_at).envelope <= if peak >= g.envelope {
            peak
        } else {
            g.envelope
        },
{
}

/// A level between the two bars holds an open gate open, and does not open a
/// closed one.
pub proof fn gate_has_hysteresis(g: GateState, peak: i32, open_at: i32)
    requires
        0 <= g.envelope <= peak,
        part(open_at as int, GATE_CLOSE_RATIO_PCT as int) < peak <= open_at,
    ensures
        g.hangover > 0 ==> stepped(g, peak, open_at).was_open,
        g.hangover == 0 ==> !stepped(g, peak, open_at).was_open,
{
}

/// A gate that was silenced drops what does not open it, however loud it was
/// before.
pub proof fn silence_forgets(peak: i32, open_at: i32)
    requires
        0 <= open_at,
        peak <= open_at,
    ensures
        !stepped(
            GateState { hangover: 0, envelope: 0, was_open: false },
            peak,
            open_at,
        ).was_open,
{
}

/// A quiet frame brings an open gate one frame nearer to closing, so that it
/// closes once the hangover has run out; a closed one stays closed.
pub proof fn gate_closes(g: GateState, peak: i32, open_at: i32)
    requires
        0 <= open_at,
        next_envelope(g.envelope as int, peak as int) <= part(
            open_at as int,
            GATE_CLOSE_RATIO_PCT as int,
        ),
    ensures
        g.hangover > 0 ==> stepped(g, peak, open_at).hangover == g.hangover - 1,
        g.hangover == 0 ==> stepped(g, peak, open_at).hangover == 0,
{
}

/// What the service knows of its session.
#[derive(Debug)]
pub struct VoiceService {
    pub live: bool,
    pub last_connect: Option<(String, String, Id)>,
}

/// What has to be done with the rooms and the devices.
#[derive(Debug, PartialEq, Eq)]
pub enum VoiceAction {
    /// Leave the rooms and stop the capture.
    Close,
    Open { url: String, token: String, channel_id: Id },
    /// Open again, because something changed.
    Reopen { url: String, token: String, channel_id: Id, why: Restart },
    MuteTrack(bool),
    ListDevices,
    SystemAudio { enabled: bool, target: Option<ShareTarget> },
    ScreenAudio(Option<(String, String)>),
    ScreenVideo { room: Option<(String, String)>, target: ShareTarget, settings: CaptureSettings },
}

/// Why a session is opened again.
#[derive(Debug, Clone, Copy, PartialEq, Eq, Structural)]
pub enum Restart {
    DeviceChange,
    ProcessingChange,
}

impl Restart {
    /// The reason in words.
    pub open spec fn words(&self) -> Seq<char> {
        match self {
            Restart::DeviceChange => "device change"@,
            Restart::ProcessingChange => "microphone-processing change"@,
        }
    }

    /// The reason in words.
    pub fn text(self) -> (r: &'static str)
        ensures
            r@ == self.words(),
    {
        match self {
            Restart::DeviceChange => "device change",
            Restart::ProcessingChange => "microphone-processing change",
        }
    }
}

/// A number brought between two bounds.
pub open spec fn clamped(x: int, low: int, high: int) -> int {
    if x < low {
        low
    } else if x > high {
        high
    } else {
        x
    }
}

/// Brings a number between two bounds.
pub fn clamp(x: u32, low: u32, high: u32) -> (r: u32)
    requires
        low <= high,
    ensures
        r == clamped(x as int, low as int, high as int),
{
    if x < low {
        low
    } else if x > high {
        high
    } else {
        x
    }
}

/// The bitrate that is used for one that was asked for.
pub open spec fn usable_bitrate(kbps: u32) -> u32 {
    if kbps == 24 {
        24
    } else {
        48
    }
}

/// What closes a session that is open.
pub open spec fn closing(v: VoiceService) -> Seq<VoiceAction> {
    if v.live {
        seq![VoiceAction::Close]
    } else {
        Seq::empty()
    }
}

/// What is known of the sound once a session is closed: nobody's quality and nobody's
/// stream, and the room of screens is left.
pub open spec fn hushed(audio: AudioState, audio2: AudioState) -> bool {
    &&& audio2 == (AudioState {
        quality: audio2.quality,
        stream_has_audio: audio2.stream_has_audio,
        screen_audio_joined: false,
        ..audio
    })
    &&& audio2.quality@ == Map::<Seq<char>, ConnectionHealth>::empty()
    &&& audio2.stream_has_audio@ == Map::<Seq<char>, bool>::empty()
}

/// What is known of the sound after a session was closed, if one was.
pub open spec fn hushed_if(closed: bool, audio: AudioState, audio2: AudioState) -> bool {
    if closed {
        hushed(audio, audio2)
    } else {
        audio2 == audio
    }
}

fn hush(audio: &mut AudioState)
    ensures
        hushed(*old(audio), *final(audio)),
{
    audio.quality = TextTable::new();
    audio.stream_has_audio = TextTable::new();
    audio.screen_audio_joined = false;
}

/// Whether a session is opened again where it was: one is open, and it is known where.
pub open spec fn restarts(v: VoiceService) -> bool {
    v.live && v.last_connect is Some
}

/// A session that is open is closed and opened again where it was.
pub open spec fn restarted(
    v: VoiceService,
    why: Restart,
    w: VoiceService,
    a: Seq<VoiceAction>,
) -> bool {
    match v.last_connect {
        Some(to) => if v.live {
            &&& w == (VoiceService { live: false, ..v })
            &&& a == seq![
                VoiceAction::Close,
                VoiceAction::Reopen { url: to.0, token: to.1, channel_id: to.2, why },
            ]
        } else {
            w == v && a == Seq::<VoiceAction>::empty()
        },
        None => w == v && a == Seq::<VoiceAction>::empty(),
    }
}

/// A new choice, or the one there was.
pub open spec fn chosen(new: Option<String>, held: Option<String>) -> Option<String> {
    match new {
        Some(x) => Some(x),
        None => held,
    }
}

/// What only an open session is told.
pub open spec fn if_live(v: VoiceService, a: VoiceAction) -> Seq<VoiceAction> {
    if v.live {
        seq![a]
    } else {
        Seq::empty()
    }
}

/// What a command does to what is known and to the session, and what has to be
/// done.
pub open spec fn commanded(
    v: VoiceService,
    own: SelfVoice,
    audio: AudioState,
    cmd: VoiceCmd,
    w: VoiceService,
    own2: SelfVoice,
    audio2: AudioState,
    a: Seq<VoiceAction>,
) -> bool {
    let quiet = w == v && a == Seq::<VoiceAction>::empty();
    match cmd {
        VoiceCmd::Connect { livekit_url, token, channel_id } => {
            &&& own2 == own && hushed_if(v.live, audio, audio2)
            &&& w == (VoiceService {
                live: false,
                last_connect: Some((livekit_url, token, channel_id)),
            })
            &&& a == closing(v).push(VoiceAction::Open { url: livekit_url, token, channel_id })
        },
        VoiceCmd::Disconnect => {
            &&& own2 == (SelfVoice {
                    phase: VoicePhase::Idle,
                    channel_id: None,
                    error: None,
                    ..own
                }) && hushed_if(v.live, audio, audio2)
            &&& w == (VoiceService { live: false, last_connect: None })
            &&& a == closing(v)
        },
        VoiceCmd::ListDevices => own2 == own && audio2 == audio && w == v && a == seq![VoiceAction::ListDevices],
        VoiceCmd::SetDevices { input, output } => {
            &&& hushed_if(
                restarts(v),
                AudioState {
                    selected_input_device: chosen(input, audio.selected_input_device),
                    selected_output_device: chosen(output, audio.selected_output_device),
                    ..audio
                },
                audio2,
            ) && own2 == own
            &&& restarted(v, Restart::DeviceChange, w, a)
        },
        VoiceCmd::SetBypassSystemProcessing { enabled } => {
            &&& hushed_if(
                restarts(v),
                AudioState { bypass_system_processing: enabled, mic_bypass_error: None, ..audio },
                audio2,
            ) && own2 == own
            &&& restarted(v, Restart::ProcessingChange, w, a)
        },
        VoiceCmd::SetMute { muted } => {
            &&& own2 == (SelfVoice { muted, ..own }) && audio2 == audio
            &&& w == v
            &&& a == if_live(v, VoiceAction::MuteTrack(muted))
        },
        VoiceCmd::SetDeafen { deafened } => {
            &&& own2 == (SelfVoice { deafened, ..own }) && audio2 == audio
            &&& quiet
        },
        VoiceCmd::SetSensitivity { threshold } => {
            &&& audio2 == (AudioState {
                    mic_sensitivity: clamped(threshold as int, 1, 1000) as u32,
                    ..audio
                }) && own2 == own
            &&& quiet
        },
        VoiceCmd::SetDenoiseAttenLim { db } => {
            &&& audio2 == (AudioState {
                    denoise_atten_lim_db: clamped(
                        db as int,
                        DENOISE_ATTEN_LIM_DB_MIN as int,
                        DENOISE_ATTEN_LIM_DB_MAX as int,
                    ) as u32,
                    ..audio
                }) && own2 == own
            &&& quiet
        },
        VoiceCmd::SetNoiseCancellation { enabled } => {
            &&& audio2 == (AudioState { noise_cancellation: enabled, ..audio }) && own2 == own
            &&& quiet
        },
        VoiceCmd::SetMicVolume { percent } => {
            &&& audio2 == (AudioState {
                    mic_volume: clamped(percent as int, 0, 200) as u16,
                    ..audio
                }) && own2 == own
            &&& quiet
        },
        VoiceCmd::SetAutoGainControl { enabled } => {
            &&& audio2 == (AudioState { auto_gain_control: enabled, ..audio }) && own2 == own
            &&& quiet
        },
        VoiceCmd::SetVoiceBitrate { kbps } => {
            &&& audio2 == (AudioState { voice_bitrate_kbps: usable_bitrate(kbps), ..audio }) && own2 == own
            &&& quiet
        },
        VoiceCmd::SetStatsPolling { enabled } => {
            &&& audio2 == (AudioState { stats_polling: enabled, ..audio }) && own2 == own
            &&& quiet
        },
        VoiceCmd::SetSystemAudio { enabled, target } => own2 == own && audio2 == audio && w == v
            && a == if_live(v, VoiceAction::SystemAudio { enabled, target }),
        VoiceCmd::SetScreenAudio { room } => own2 == own && audio2 == audio && w == v && a
            == if_live(v, VoiceAction::ScreenAudio(room)),
        VoiceCmd::SetScreenVideo { room, target, settings } => own2 == own && audio2 == audio && w
            == v && a == if_live(v, VoiceAction::ScreenVideo { room, target, settings }),
    }
}

impl VoiceService {
    /// No session yet.
    pub fn new() -> (r: VoiceService)
        ensures
            r == (VoiceService { live: false, last_connect: None }),
    {
        VoiceService { live: false, last_connect: None }
    }

    fn push_closing(&self, actions: &mut Vec<VoiceAction>)
        ensures
            final(actions)@ == old(actions)@ + closing(*self),
    {
        let ghost before = actions@;
        if self.live {
            actions.push(VoiceAction::Close);
        }
        assert(actions@ =~= before + closing(*self));
    }

    fn push_live(&self, actions: &mut Vec<VoiceAction>, action: VoiceAction)
        requires
            old(actions)@.len() == 0,
        ensures
            final(actions)@ == if_live(*self, action),
    {
        if self.live {
            actions.push(action);
        }
        assert(actions@ =~= if_live(*self, action));
    }

    /// Opens a session again where it was, if one is open.
    fn restart(&mut self, why: Restart) -> (r: Vec<VoiceAction>)
        ensures
            restarted(*old(self), why, *final(self), r@),
    {
        let mut actions: Vec<VoiceAction> = Vec::new();
        assert(actions@ =~= Seq::<VoiceAction>::empty());
        if !self.live {
            return actions;
        }
        if let Some(to) = &self.last_connect {
            actions.push(VoiceAction::Close);
            actions.push(
                VoiceAction::Reopen { url: to.0.clone(), token: to.1.clone(), channel_id: to.2, why },
            );
            assert(actions@ =~= seq![
                VoiceAction::Close,
                VoiceAction::Reopen { url: to.0, token: to.1, channel_id: to.2, why },
            ]);
            self.live = false;
        }
        actions
    }

    /// Follows a command.
    #[verifier::rlimit(40)]
    pub fn handle(&mut self, own: &mut SelfVoice, audio: &mut AudioState, cmd: VoiceCmd) -> (r: Vec<
        VoiceAction,
    >)
        ensures
            commanded(
                *old(self),
                *old(own),
                *old(audio),
                cmd,
                *final(self),
                *final(own),
                *final(audio),
                r@,
            ),
    {
        let mut actions: Vec<VoiceAction> = Vec::new();
        assert(actions@ =~= Seq::<VoiceAction>::empty());
        match cmd {
            VoiceCmd::Connect { livekit_url, token, channel_id } => {
                if self.live {
                    hush(audio);
                }
                self.push_closing(&mut actions);
                assert(actions@ =~= closing(*self));
                self.last_connect = Some((livekit_url.clone(), token.clone(), channel_id));
                self.live = false;
                actions.push(VoiceAction::Open { url: livekit_url, token, channel_id });
            },
            VoiceCmd::Disconnect => {
                if self.live {
                    hush(audio);
                }
                self.push_closing(&mut actions);
                assert(actions@ =~= closing(*self));
                own.phase = VoicePhase::Idle;
                own.channel_id = None;
                own.error = None;
                self.live = false;
                self.last_connect = None;
            },
            VoiceCmd::ListDevices => {
                actions.push(VoiceAction::ListDevices);
                assert(actions@ =~= seq![VoiceAction::ListDevices]);
            },
            VoiceCmd::SetDevices { input, output } => {
                if let Some(i) = input {
                    audio.selected_input_device = Some(i);
                }
                if let Some(o) = output {
                    audio.selected_output_device = Some(o);
                }
                if self.live && self.last_connect.is_some() {
                    hush(audio);
                }
                return self.restart(Restart::DeviceChange);
            },
            VoiceCmd::SetBypassSystemProcessing { enabled } => {
                audio.bypass_system_processing = enabled;
                audio.mic_bypass_error = None;
                if self.live && self.last_connect.is_some() {
                    hush(audio);
                }
                return self.restart(Restart::ProcessingChange);
            },
            VoiceCmd::SetMute { muted } => {
                self.push_live(&mut actions, VoiceAction::MuteTrack(muted));
                own.muted = muted;
            },
            VoiceCmd::SetDeafen { deafened } => {
                own.deafened = deafened;
            },
            VoiceCmd::SetSensitivity { threshold } => {
                audio.mic_sensitivity = clamp(threshold, 1, 1000);
            },
            VoiceCmd::SetDenoiseAttenLim { db } => {
                audio.denoise_atten_lim_db = clamp(
                    db,
                    DENOISE_ATTEN_LIM_DB_MIN,
                    DENOISE_ATTEN_LIM_DB_MAX,
                );
            },
            VoiceCmd::SetNoiseCancellation { enabled } => {
                audio.noise_cancellation = enabled;
            },
            VoiceCmd::SetMicVolume { percent } => {
                audio.mic_volume = if percent > 200 {
                    200
                } else {
                    percent
                };
            },
            VoiceCmd::SetAutoGainControl { enabled } => {
                audio.auto_gain_control = enabled;
            },
            VoiceCmd::SetVoiceBitrate { kbps } => {
                audio.voice_bitrate_kbps = if kbps == 24 {
                    24
                } else {
                    48
                };
            },
            VoiceCmd::SetStatsPolling { enabled } => {
                audio.stats_polling = enabled;
            },
            VoiceCmd::SetSystemAudio { enabled, target } => {
                self.push_live(&mut actions, VoiceAction::SystemAudio { enabled, target });
            },
            VoiceCmd::SetScreenAudio { room } => {
                self.push_live(&mut actions, VoiceAction::ScreenAudio(room));
            },
            VoiceCmd::SetScreenVideo { room, target, settings } => {
                self.push_live(&mut actions, VoiceAction::ScreenVideo { room, target, settings });
            },
        }
        actions
    }

    /// A session was opened.
    pub fn opened(&mut self, s: &mut AppState)
        requires
            old(s).audio.session_epoch < u64::MAX,
        ensures
            *final(self) == (VoiceService { live: true, ..*old(self) }),
            *final(s) == (AppState {
                voice: SelfVoice { phase: VoicePhase::Connected, ..old(s).voice },
                audio: AudioState {
                    session_epoch: (old(s).audio.session_epoch + 1) as u64,
                    ..old(s).audio
                },
                ..*old(s)
            }),
    {
        self.live = true;
        s.voice.phase = VoicePhase::Connected;
        s.audio.session_epoch = s.audio.session_epoch + 1;
    }

    /// A session could not be opened, at first or again.
    pub fn open_failed(&mut self, s: &mut AppState, why: Option<Restart>, error: String)
        ensures
            *final(self) == (VoiceService { live: false, ..*old(self) }),
            *final(s) == (AppState {
                voice: SelfVoice {
                    phase: VoicePhase::Error,
                    channel_id: None,
                    error: final(s).voice.error,
                    ..old(s).voice
                },
                ..*old(s)
            }),
            final(s).voice.error is Some,
            final(s).voice.error->Some_0@ == match why {
                None => error@,
                Some(w) => "reconnect after "@ + w.words() + ": "@ + error@,
            },
    {
        self.live = false;
        s.voice.phase = VoicePhase::Error;
        s.voice.error = Some(
            match why {
                None => error,
                Some(w) => "reconnect after ".to_owned().concat(w.text()).concat(": ").concat(
                    error.as_str(),
                ),
            },
        );
        s.voice.channel_id = None;
    }
}

/// News of how well the others are heard.
#[derive(Debug, Clone, PartialEq, Eq)]
pub enum QualityMsg {
    Report(String, ConnectionHealth),
    Drop(String),
    Clear,
    Undecryptable,
}

/// Takes news of quality in, and says whether media arrives that cannot be read.
pub fn apply_quality(audio: &mut AudioState, msg: QualityMsg) -> (r: bool)
    ensures
        r == (msg is Undecryptable),
        *final(audio) == (AudioState { quality: final(audio).quality, ..*old(audio) }),
        final(audio).quality@ == match msg {
            QualityMsg::Report(id, health) => old(audio).quality@.insert(id@, health),
            QualityMsg::Drop(id) => old(audio).quality@.remove(id@),
            QualityMsg::Clear => Map::empty(),
            QualityMsg::Undecryptable => old(audio).quality@,
        },
{
    match msg {
        QualityMsg::Report(id, health) => {
            audio.quality.insert(id, health);
            false
        },
        QualityMsg::Drop(id) => {
            let _ = audio.quality.remove(id.as_str());
            false
        },
        QualityMsg::Clear => {
            audio.quality = TextTable::new();
            false
        },
        QualityMsg::Undecryptable => true,
    }
}

/// News of who sends the sound of a screen.
#[derive(Debug, Clone, PartialEq, Eq)]
pub enum StreamAudio {
    Present(String),
    Gone(String),
    RoomGone,
}

/// Takes news of stream sound in.
pub fn apply_stream_audio(audio: &mut AudioState, ev: StreamAudio)
    ensures
        *final(audio) == (AudioState {
            stream_has_audio: final(audio).stream_has_audio,
            screen_audio_joined: old(audio).screen_audio_joined && !(ev is RoomGone),
            ..*old(audio)
        }),
        final(audio).stream_has_audio@ == match ev {
            StreamAudio::Present(id) => old(audio).stream_has_audio@.insert(id@, true),
            StreamAudio::Gone(id) => old(audio).stream_has_audio@.remove(id@),
            StreamAudio::RoomGone => Map::empty(),
        },
{
    match ev {
        StreamAudio::Present(id) => {
            audio.stream_has_audio.insert(id, true);
        },
        StreamAudio::Gone(id) => {
            let _ = audio.stream_has_audio.remove(id.as_str());
        },
        StreamAudio::RoomGone => {
            audio.stream_has_audio = TextTable::new();
            audio.screen_audio_joined = false;
        },
    }
}

/// Where a track comes from.
#[derive(Debug, Clone, Copy, PartialEq, Eq, Structural)]
pub enum TrackSource {
    Microphone,
    Camera,
    Screenshare,
    ScreenshareAudio,
    Unknown,
}

/// What a room of the media server says.
#[derive(Debug, Clone, PartialEq, Eq)]
pub enum RoomEvent {
    ParticipantDisconnected { identity: String },
    QualityChanged { identity: String, health: ConnectionHealth },
    TrackPublished { identity: String, source: TrackSource },
    TrackSubscribed { identity: String, source: TrackSource, audio: bool },
    TrackUnsubscribed { identity: String, source: TrackSource },
    TrackUnpublished { identity: String, source: TrackSource },
    Disconnected,
    EncryptionChanged { readable: bool },
    /// The stream of events ended.
    Ended,
    Other,
}

/// What has to be done about it.
#[derive(Debug, PartialEq, Eq)]
pub enum RoomReaction {
    Quality(QualityMsg),
    Stream(StreamAudio),
    /// Forget how loud somebody's stream was set.
    ForgetGain(String),
    /// Play a track.
    Play { identity: String, is_stream: bool },
    /// Ask for a track.
    Subscribe,
    /// The room is no longer there.
    RoomDead,
}

/// What the room of a call asks for.
pub open spec fn voice_reactions(ev: RoomEvent) -> Seq<RoomReaction> {
    match ev {
        RoomEvent::ParticipantDisconnected { identity } => seq![
            RoomReaction::Quality(QualityMsg::Drop(identity)),
            RoomReaction::ForgetGain(identity),
        ],
        RoomEvent::QualityChanged { identity, health } => seq![
            RoomReaction::Quality(QualityMsg::Report(identity, health)),
        ],
        RoomEvent::TrackSubscribed { identity, source, audio } => if !audio {
            Seq::empty()
        } else if source == TrackSource::ScreenshareAudio {
            seq![
                RoomReaction::Stream(StreamAudio::Present(identity)),
                RoomReaction::Play { identity, is_stream: true },
            ]
        } else {
            seq![RoomReaction::Play { identity, is_stream: false }]
        },
        RoomEvent::TrackUnsubscribed { identity, source } => if source
            == TrackSource::ScreenshareAudio {
            seq![RoomReaction::Stream(StreamAudio::Gone(identity))]
        } else {
            Seq::empty()
        },
        RoomEvent::Disconnected | RoomEvent::Ended => seq![
            RoomReaction::Quality(QualityMsg::Clear),
        ],
        RoomEvent::EncryptionChanged { readable } => if readable {
            Seq::empty()
        } else {
            seq![RoomReaction::Quality(QualityMsg::Undecryptable)]
        },
        _ => Seq::empty(),
    }
}

/// Decides about an event in the room of a call.
pub fn on_voice_room_event(ev: RoomEvent) -> (r: Vec<RoomReaction>)
    ensures
        r@ == voice_reactions(ev),
{
    let mut out: Vec<RoomReaction> = Vec::new();
    match ev {
        RoomEvent::ParticipantDisconnected { identity } => {
            out.push(RoomReaction::Quality(QualityMsg::Drop(identity.clone())));
            out.push(RoomReaction::ForgetGain(identity));
        },
        RoomEvent::QualityChanged { identity, health } => {
            out.push(RoomReaction::Quality(QualityMsg::Report(identity, health)));
        },
        RoomEvent::TrackSubscribed { identity, source, audio } => {
            if audio {
                let is_stream: bool = source == TrackSource::ScreenshareAudio;
                if is_stream {
                    out.push(RoomReaction::Stream(StreamAudio::Present(identity.clone())));
                }
                out.push(RoomReaction::Play { identity, is_stream });
            }
        },
        RoomEvent::TrackUnsubscribed { identity, source } => {
            if source == TrackSource::ScreenshareAudio {
                out.push(RoomReaction::Stream(StreamAudio::Gone(identity)));
            }
        },
        RoomEvent::Disconnected => {
            out.push(RoomReaction::Quality(QualityMsg::Clear));
        },
        RoomEvent::Ended => {
            out.push(RoomReaction::Quality(QualityMsg::Clear));
        },
        RoomEvent::EncryptionChanged { readable } => {
            if !readable {
                out.push(RoomReaction::Quality(QualityMsg::Undecryptable));
            }
        },
        RoomEvent::TrackPublished { .. } => {},
        RoomEvent::TrackUnpublished { .. } => {},
        RoomEvent::Other => {},
    }
    assert(out@ =~= voice_reactions(ev));
    out
}

/// Whether a track is the sound of somebody else's screen.
pub fn wanted(source: TrackSource, publisher: &str, self_pubkey: &str) -> (r: bool)
    ensures
        r == (source == TrackSource::ScreenshareAudio && publisher@ != self_pubkey@),
{
    source == TrackSource::ScreenshareAudio && !same(publisher, self_pubkey)
}

/// What the room of shared screens asks for.
pub open spec fn screen_reactions(ev: RoomEvent, self_pubkey: Seq<char>) -> Seq<RoomReaction> {
    match ev {
        RoomEvent::TrackPublished { identity, source } => if source
            == TrackSource::ScreenshareAudio && identity@ != self_pubkey {
            seq![RoomReaction::Subscribe]
        } else {
            Seq::empty()
        },
        RoomEvent::TrackSubscribed { identity, source, audio } => if audio {
            seq![
                RoomReaction::Stream(StreamAudio::Present(identity)),
                RoomReaction::Play { identity, is_stream: true },
            ]
        } else {
            Seq::empty()
        },
        RoomEvent::TrackUnsubscribed { identity, source } | RoomEvent::TrackUnpublished {
            identity,
            source,
        } => if source == TrackSource::ScreenshareAudio {
            seq![RoomReaction::Stream(StreamAudio::Gone(identity))]
        } else {
            Seq::empty()
        },
        RoomEvent::Disconnected => seq![
            RoomReaction::RoomDead,
            RoomReaction::Stream(StreamAudio::RoomGone),
        ],
        _ => Seq::empty(),
    }
}

/// Decides about an event in the room of shared screens.
pub fn on_screen_room_event(ev: RoomEvent, self_pubkey: &str) -> (r: Vec<RoomReaction>)
    ensures
        r@ == screen_reactions(ev, self_pubkey@),
{
    let mut out: Vec<RoomReaction> = Vec::new();
    match ev {
        RoomEvent::TrackPublished { identity, source } => {
            if wanted(source, identity.as_str(), self_pubkey) {
                out.push(RoomReaction::Subscribe);
            }
        },
        RoomEvent::TrackSubscribed { identity, source, audio } => {
            if audio {
                out.push(RoomReaction::Stream(StreamAudio::Present(identity.clone())));
                out.push(RoomReaction::Play { identity, is_stream: true });
            }
        },
        RoomEvent::TrackUnsubscribed { identity, source } => {
            if source == TrackSource::ScreenshareAudio {
                out.push(RoomReaction::Stream(StreamAudio::Gone(identity)));
            }
        },
        RoomEvent::TrackUnpublished { identity, source } => {
            if source == TrackSource::ScreenshareAudio {
                out.push(RoomReaction::Stream(StreamAudio::Gone(identity)));
            }
        },
        RoomEvent::Disconnected => {
            out.push(RoomReaction::RoomDead);
            out.push(RoomReaction::Stream(StreamAudio::RoomGone));
        },
        _ => {},
    }
    assert(out@ =~= screen_reactions(ev, self_pubkey@));
    out
}

/// What to do about the room that carries the sound of screens.
#[derive(Debug, Clone, Copy, PartialEq, Eq, Structural)]
pub enum ScreenAudioPlan {
    Keep,
    Leave,
    /// Join, after leaving one that is stale.
    Join { leave_first: bool },
    /// There is no name to join under; a stale room is left all the same.
    NoIdentity { leave_first: bool },
}

/// Whether two pairs of a place and a token are the same.
pub open spec fn same_room(a: (String, String), b: (String, String)) -> bool {
    a.0@ == b.0@ && a.1@ == b.1@
}

/// Decides about the room that carries the sound of screens: the one joined, with
/// whether it is alive, against the one that is wanted.
pub fn plan_screen_audio(
    joined: &Option<((String, String), bool)>,
    room: &Option<(String, String)>,
    has_identity: bool,
) -> (r: ScreenAudioPlan)
    ensures
        r == match *room {
            None => if joined is Some {
                ScreenAudioPlan::Leave
            } else {
                ScreenAudioPlan::Keep
            },
            Some(want) => match *joined {
                Some(have) => if same_room(have.0, want) && have.1 {
                    ScreenAudioPlan::Keep
                } else if has_identity {
                    ScreenAudioPlan::Join { leave_first: true }
                } else {
                    ScreenAudioPlan::NoIdentity { leave_first: true }
                },
                None => if has_identity {
                    ScreenAudioPlan::Join { leave_first: false }
                } else {
                    ScreenAudioPlan::NoIdentity { leave_first: false }
                },
            },
        },
{
    match room {
        None => {
            if joined.is_some() {
                ScreenAudioPlan::Leave
            } else {
                ScreenAudioPlan::Keep
            }
        },
        Some(want) => {
            let leave_first: bool = match joined {
                Some(have) => {
                    if have.1 && same(have.0.0.as_str(), want.0.as_str()) && same(
                        have.0.1.as_str(),
                        want.1.as_str(),
                    ) {
                        return ScreenAudioPlan::Keep;
                    }
                    true
                },
                None => false,
            };
            if has_identity {
                ScreenAudioPlan::Join { leave_first }
            } else {
                ScreenAudioPlan::NoIdentity { leave_first }
            }
        },
    }
}

/// What to do about the capture of this machine's sound.
#[derive(Debug, Clone, Copy, PartialEq, Eq, Structural)]
pub enum CapturePlan {
    Keep,
    Stop,
    Start { stop_first: bool },
}

/// Decides about the capture of this machine's sound: the target of the one that
/// runs against the one that is wanted.
pub fn plan_system_audio(
    running: Option<Option<ShareTarget>>,
    enabled: bool,
    target: Option<ShareTarget>,
    supported: bool,
) -> (r: CapturePlan)
    ensures
        r == if enabled && running == Some(target) {
            CapturePlan::Keep
        } else if enabled && supported {
            CapturePlan::Start { stop_first: running is Some }
        } else if running is Some {
            CapturePlan::Stop
        } else {
            CapturePlan::Keep
        },
{
    let held: bool = running.is_some();
    let same_target: bool = match running {
        Some(have) => match (have, target) {
            (Some(a), Some(b)) => a == b,
            (None, None) => true,
            _ => false,
        },
        None => false,
    };
    if enabled && same_target {
        CapturePlan::Keep
    } else if enabled && supported {
        CapturePlan::Start { stop_first: held }
    } else if held {
        CapturePlan::Stop
    } else {
        CapturePlan::Keep
    }
}

/// What is said when this machine's sound cannot be captured.
pub fn system_audio_failed(s: &mut AppState, error: &str)
    ensures
        *final(s) == (AppState { error_toast: final(s).error_toast, ..*old(s) }),
        final(s).error_toast is Some,
        final(s).error_toast->Some_0@
            == "Sharing video only — couldn't capture this computer's sound: "@ + error@,
{
    s.error_toast = Some(
        "Sharing video only — couldn't capture this computer's sound: ".to_owned().concat(error),
    );
}

/// The screen cannot be shared.
pub fn screen_video_failed(s: &mut AppState, error: &str)
    ensures
        *final(s) == (AppState {
            screen_sharing: false,
            screen_share_target: None,
            error_toast: final(s).error_toast,
            ..*old(s)
        }),
        final(s).error_toast is Some,
        final(s).error_toast->Some_0@ == "Couldn't share your screen: "@ + error@,
{
    s.screen_sharing = false;
    s.screen_share_target = None;
    s.error_toast = Some("Couldn't share your screen: ".to_owned().concat(error));
}

/// This machine's sound stopped being captured while a screen is shared.
pub fn system_audio_died(s: &mut AppState, error: &str)
    ensures
        *final(s) == (AppState { error_toast: final(s).error_toast, ..*old(s) }),
        final(s).error_toast is Some,
        final(s).error_toast->Some_0@ == "This computer's sound stopped being shared: "@ + error@
            + ". The screen is still being shared — restart the share to send sound again."@,
{
    s.error_toast = Some(
        "This computer's sound stopped being shared: ".to_owned().concat(error).concat(
            ". The screen is still being shared — restart the share to send sound again.",
        ),
    );
}

/// What is known of the sound once the room of screens is left.
pub open spec fn screens_left(audio: AudioState, audio2: AudioState) -> bool {
    &&& audio2 == (AudioState {
        stream_has_audio: audio2.stream_has_audio,
        screen_audio_joined: false,
        ..audio
    })
    &&& audio2.stream_has_audio@ == Map::<Seq<char>, bool>::empty()
}

/// Whether a plan leaves the room of screens that was joined.
pub open spec fn plan_leaves(plan: ScreenAudioPlan) -> bool {
    match plan {
        ScreenAudioPlan::Keep => false,
        ScreenAudioPlan::Leave => true,
        ScreenAudioPlan::Join { leave_first } => leave_first,
        ScreenAudioPlan::NoIdentity { leave_first } => leave_first,
    }
}

fn leave_screens(audio: &mut AudioState)
    ensures
        screens_left(*old(audio), *final(audio)),
{
    audio.stream_has_audio = TextTable::new();
    audio.screen_audio_joined = false;
}

/// Takes up a plan for the room of screens: what was joined is left, and that none can
/// be joined without an identity is said. A room that is to be joined is joined after
/// this.
pub fn take_up_screen_audio(s: &mut AppState, plan: ScreenAudioPlan)
    ensures
        *final(s) == (AppState {
            audio: final(s).audio,
            error_toast: final(s).error_toast,
            ..*old(s)
        }),
        if plan_leaves(plan) {
            screens_left(old(s).audio, final(s).audio)
        } else {
            final(s).audio == old(s).audio
        },
        if plan is NoIdentity {
            final(s).error_toast is Some && final(s).error_toast->Some_0@
                == "Couldn't join the stream's audio: this session has no identity yet."@
        } else {
            final(s).error_toast == old(s).error_toast
        },
{
    let leaves: bool = match plan {
        ScreenAudioPlan::Keep => false,
        ScreenAudioPlan::Leave => true,
        ScreenAudioPlan::Join { leave_first } => leave_first,
        ScreenAudioPlan::NoIdentity { leave_first } => leave_first,
    };
    if leaves {
        leave_screens(&mut s.audio);
    }
    if let ScreenAudioPlan::NoIdentity { .. } = plan {
        s.error_toast = Some(
            "Couldn't join the stream's audio: this session has no identity yet.".to_owned(),
        );
    }
}

/// What came of joining the room of screens: from then on its sound is ours to play, or
/// it is said that the window plays it.
pub fn screen_audio_joined(s: &mut AppState, outcome: Result<(), String>)
    ensures
        *final(s) == (AppState {
            audio: AudioState { screen_audio_joined: outcome is Ok, ..old(s).audio },
            error_toast: final(s).error_toast,
            ..*old(s)
        }),
        match outcome {
            Ok(_) => final(s).error_toast == old(s).error_toast,
            Err(e) => final(s).error_toast is Some && final(s).error_toast->Some_0@
                == "Stream sound is playing through the app window instead of your chosen output device: "@
                + e@,
        },
{
    match outcome {
        Ok(_) => {
            s.audio.screen_audio_joined = true;
        },
        Err(e) => {
            s.audio.screen_audio_joined = false;
            s.error_toast = Some(
                "Stream sound is playing through the app window instead of your chosen output device: ".to_owned().concat(
                    e.as_str(),
                ),
            );
        },
    }
}

/// What to do about the picture of our screen.
#[derive(Debug, PartialEq, Eq)]
pub enum ScreenVideoPlan {
    Keep,
    Stop,
    Start { stop_first: bool },
    /// This system cannot capture a screen. What ran is stopped.
    Unsupported { stop_first: bool },
}

/// The words of a system that cannot capture a screen.
pub const NO_SCREEN_CAPTURE: &'static str = "screen capture isn't implemented on this platform";

/// Whether the picture that runs is the one that is wanted: in the same room, of the
/// same target.
pub open spec fn same_picture(
    running: ((String, String), ShareTarget),
    room: (String, String),
    target: ShareTarget,
) -> bool {
    same_room(running.0, room) && running.1 == target
}

/// Decides about the picture of our screen: the one that runs against the one that is
/// wanted.
pub fn plan_screen_video(
    running: &Option<((String, String), ShareTarget)>,
    room: &Option<(String, String)>,
    target: ShareTarget,
    supported: bool,
) -> (r: ScreenVideoPlan)
    ensures
        r == match *room {
            None => if running is Some {
                ScreenVideoPlan::Stop
            } else {
                ScreenVideoPlan::Keep
            },
            Some(want) => if running is Some && same_picture(running->Some_0, want, target) {
                ScreenVideoPlan::Keep
            } else if supported {
                ScreenVideoPlan::Start { stop_first: running is Some }
            } else {
                ScreenVideoPlan::Unsupported { stop_first: running is Some }
            },
        },
{
    match room {
        None => {
            if running.is_some() {
                ScreenVideoPlan::Stop
            } else {
                ScreenVideoPlan::Keep
            }
        },
        Some(want) => {
            if let Some(have) = running {
                if same(have.0.0.as_str(), want.0.as_str()) && same(
                    have.0.1.as_str(),
                    want.1.as_str(),
                ) && have.1 == target {
                    return ScreenVideoPlan::Keep;
                }
            }
            if supported {
                ScreenVideoPlan::Start { stop_first: running.is_some() }
            } else {
                ScreenVideoPlan::Unsupported { stop_first: running.is_some() }
            }
        },
    }
}

/// What to do about the noise model before a frame.
#[derive(Debug, Clone, Copy, PartialEq, Eq, Structural)]
pub enum ModelStep {
    Nothing,
    Load,
    /// Filter the frame; set the attenuation first when it changed.
    Filter { set_limit: bool },
    Release,
}

/// Decides about the noise model: whether it is wanted, whether it is there, and
/// the limit it runs with against the one that is wanted.
pub fn model_step(enabled: bool, loaded: bool, applied: u32, limit: u32) -> (r: ModelStep)
    ensures
        r == if enabled && loaded {
            ModelStep::Filter { set_limit: applied != limit }
        } else if enabled {
            ModelStep::Load
        } else if loaded {
            ModelStep::Release
        } else {
            ModelStep::Nothing
        },
{
    if enabled && loaded {
        ModelStep::Filter { set_limit: applied != limit }
    } else if enabled {
        ModelStep::Load
    } else if loaded {
        ModelStep::Release
    } else {
        ModelStep::Nothing
    }
}

/// Whole frames of a given size, in order.
pub open spec fn whole_frames<T>(s: Seq<T>, size: nat) -> Seq<Seq<T>>
    decreases s.len(),
{
    if size == 0 || s.len() < size {
        Seq::empty()
    } else {
        seq![s.take(size as int)] + whole_frames(s.skip(size as int), size)
    }
}

/// What is left behind the last whole frame.
pub open spec fn remainder<T>(s: Seq<T>, size: nat) -> Seq<T>
    decreases s.len(),
{
    if size == 0 || s.len() < size {
        s
    } else {
        remainder(s.skip(size as int), size)
    }
}

/// The frames and what is left make up the whole, and what is left is no frame.
pub proof fn frames_cover<T>(s: Seq<T>, size: nat)
    requires
        size > 0,
    ensures
        whole_frames(s, size).flatten() + remainder(s, size) == s,
        remainder(s, size).len() < size,
        forall|i: int|
            0 <= i < whole_frames(s, size).len() ==> (#[trigger] whole_frames(s, size)[i]).len()
                == size,
    decreases s.len(),
{
    if s.len() >= size {
        let head = s.take(size as int);
        let rest = s.skip(size as int);
        frames_cover(rest, size);
        let frames = whole_frames(s, size);
        assert(frames.drop_first() =~= whole_frames(rest, size));
        assert(frames.flatten() =~= head + whole_frames(rest, size).flatten());
        assert(frames.flatten() + remainder(s, size) =~= head + (whole_frames(
            rest,
            size,
        ).flatten() + remainder(rest, size)));
        assert(head + rest =~= s);
        assert forall|i: int| 0 <= i < frames.len() implies (#[trigger] frames[i]).len()
            == size by {
            if i > 0 {
                assert(frames[i] == whole_frames(rest, size)[i - 1]);
            }
        }
    } else {
        assert(whole_frames(s, size).flatten() =~= Seq::empty());
        assert(Seq::<T>::empty() + s =~= s);
    }
}

/// Cuts samples into whole frames and keeps the rest for the next time.
pub fn cut_frames<T: Copy>(accum: &mut Vec<T>, size: usize) -> (r: Vec<Vec<T>>)
    requires
        size > 0,
    ensures
        r@.map_values(|f: Vec<T>| f@) == whole_frames(old(accum)@, size as nat),
        final(accum)@ == remainder(old(accum)@, size as nat),
{
    let ghost all = accum@;
    let n: usize = accum.len();
    let mut out: Vec<Vec<T>> = Vec::new();
    let mut from: usize = 0;
    assert(all.skip(0) =~= all);
    assert(out@.map_values(|f: Vec<T>| f@) + whole_frames(all, size as nat) =~= whole_frames(
        all,
        size as nat,
    ));
    while n - from >= size
        invariant
            size > 0,
            accum@ == all,
            n == all.len(),
            from <= n,
            out@.map_values(|f: Vec<T>| f@) + whole_frames(all.skip(from as int), size as nat)
                == whole_frames(all, size as nat),
            remainder(all.skip(from as int), size as nat) == remainder(all, size as nat),
        decreases all.len() - from,
    {
        let mut frame: Vec<T> = Vec::new();
        let mut k: usize = 0;
        while k < size
            invariant
                k <= size,
                accum@ == all,
                n == all.len(),
                from + size <= n,
                frame@ == all.subrange(from as int, from + k),
            decreases size - k,
        {
            frame.push(accum[from + k]);
            k = k + 1;
            assert(all.subrange(from as int, from + k) =~= all.subrange(
                from as int,
                from + k - 1,
            ).push(all[from + k - 1]));
        }
        let ghost was = out@;
        let ghost part = all.skip(from as int);
        out.push(frame);
        proof {
            assert(frame@ =~= part.take(size as int));
            assert(part.skip(size as int) =~= all.skip(from + size));
            assert(out@.map_values(|f: Vec<T>| f@) =~= was.map_values(|f: Vec<T>| f@).push(
                frame@,
            ));
            assert(out@.map_values(|f: Vec<T>| f@) + whole_frames(
                all.skip(from + size),
                size as nat,
            ) =~= was.map_values(|f: Vec<T>| f@) + whole_frames(part, size as nat));
        }
        from = from + size;
    }
    let ghost tail = all.skip(from as int);
    assert(out@.map_values(|f: Vec<T>| f@) + whole_frames(tail, size as nat) =~= out@.map_values(
        |f: Vec<T>| f@,
    ));
    let mut rest: Vec<T> = Vec::new();
    let mut k: usize = from;
    while k < accum.len()
        invariant
            from <= k <= all.len(),
            accum@ == all,
            rest@ == all.subrange(from as int, k as int),
        decreases all.len() - k,
    {
        rest.push(accum[k]);
        k = k + 1;
        assert(all.subrange(from as int, k as int) =~= all.subrange(from as int, k - 1).push(
            all[k - 1],
        ));
    }
    assert(rest@ =~= tail);
    *accum = rest;
    out
}

/// The last samples of a buffer, up to a cap.
pub open spec fn latest<T>(s: Seq<T>, cap: nat) -> Seq<T> {
    if s.len() <= cap {
        s
    } else {
        s.skip(s.len() - cap)
    }
}

/// Adds samples to a track, and gives up the oldest above a cap.
pub fn push_capped<T: Copy>(track: &mut VecDeque<T>, samples: &Vec<T>, cap: usize)
    requires
        old(track)@.len() + samples@.len() <= usize::MAX,
    ensures
        final(track)@ == latest(old(track)@ + samples@, cap as nat),
{
    let ghost before = track@;
    let mut i: usize = 0;
    assert(before + samples@.take(0) =~= before);
    while i < samples.len()
        invariant
            i <= samples@.len(),
            track@ == before + samples@.take(i as int),
        decreases samples@.len() - i,
    {
        track.push_back(samples[i]);
        assert(before + samples@.take(i + 1) =~= (before + samples@.take(i as int)).push(
            samples@[i as int],
        ));
        i = i + 1;
    }
    assert(samples@.take(i as int) =~= samples@);
    let ghost all = before + samples@;
    assert(all.skip(0) =~= all);
    while track.len() > cap
        invariant
            track@.len() <= all.len(),
            track@ == all.skip(all.len() - track@.len()),
            cap < all.len() ==> track@.len() >= cap,
            cap >= all.len() ==> track@ == all,
        decreases track@.len(),
    {
        let ghost was = track@;
        let _ = track.pop_front();
        assert(track@ =~= all.skip(all.len() - track@.len()));
    }
    assert(track@ =~= latest(all, cap as nat));
}

/// How many samples are taken from a track, and whether its first stays: one more
/// now and then when it runs over, none now and then when it runs dry.
pub open spec fn taken_from(len: nat, counter: u32, overrun: nat, underrun: nat) -> nat {
    if len > overrun && counter % 32 == 0 {
        2
    } else if len <= overrun && len < underrun && counter % 64 == 0 {
        0
    } else {
        1
    }
}

/// The next sample of a track, with the drift between two clocks made up for. An
/// empty track gives silence.
pub fn pop_drift_compensated<T: Copy>(
    buf: &mut VecDeque<T>,
    counter: u32,
    overrun: usize,
    underrun: usize,
    silence: T,
) -> (r: T)
    ensures
        ({
            let s = old(buf)@;
            let n = taken_from(s.len(), counter, overrun as nat, underrun as nat);
            &&& final(buf)@ == if s.len() >= n {
                s.skip(n as int)
            } else {
                Seq::empty()
            }
            &&& r == if s.len() == 0 || s.len() < n {
                silence
            } else if n == 0 {
                s[0]
            } else {
                s[n - 1]
            }
        }),
{
    let ghost s = buf@;
    let len: usize = buf.len();
    if len > overrun {
        if counter % 32 == 0 {
            let _ = buf.pop_front();
            assert(buf@ =~= s.skip(1));
            return match buf.pop_front() {
                Some(x) => {
                    assert(buf@ =~= s.skip(2));
                    x
                },
                None => {
                    assert(buf@ =~= Seq::empty());
                    silence
                },
            };
        }
    } else if len < underrun && counter % 64 == 0 {
        assert(s.skip(0) =~= s);
        if len == 0 {
            return silence;
        }
        return buf[0];
    }
    match buf.pop_front() {
        Some(x) => {
            assert(buf@ =~= s.skip(1));
            x
        },
        None => {
            assert(buf@ =~= Seq::empty());
            silence
        },
    }
}

/// How loud a track is played: not at all when we are deafened, else as it was
/// set; where nothing was set, a stream is silent and a voice is at its own level.
pub fn gain_for<G: Copy>(
    is_stream: bool,
    identity: &str,
    deafened: bool,
    gains: &TextTable<G>,
    stream_gains: &TextTable<G>,
    silent: G,
    unity: G,
) -> (r: G)
    ensures
        r == if deafened {
            silent
        } else if is_stream {
            if stream_gains@.dom().contains(identity@) {
                stream_gains@[identity@]
            } else {
                silent
            }
        } else {
            if gains@.dom().contains(identity@) {
                gains@[identity@]
            } else {
                unity
            }
        },
{
    if deafened {
        return silent;
    }
    if is_stream {
        match stream_gains.get(identity) {
            Some(g) => *g,
            None => silent,
        }
    } else {
        match gains.get(identity) {
            Some(g) => *g,
            None => unity,
        }
    }
}

/// The next number of the dither's generator.
pub open spec fn xorshift(x: u32) -> u32 {
    let a = x ^ (x << 13u32);
    let b = a ^ (a >> 17u32);
    b ^ (b << 5u32)
}

/// Steps the dither's generator; what comes back has 24 bits.
pub fn xorshift32(state: &mut u32) -> (r: u32)
    ensures
        *final(state) == xorshift(*old(state)),
        r == xorshift(*old(state)) >> 8u32,
        r < 0x100_0000,
{
    let x: u32 = *state;
    let a: u32 = x ^ (x << 13u32);
    let b: u32 = a ^ (a >> 17u32);
    let c: u32 = b ^ (b << 5u32);
    *state = c;
    assert(c >> 8u32 < 0x100_0000u32) by (bit_vector);
    c >> 8u32
}

/// A quotient rounded to the nearest whole number, halves upward.
pub open spec fn rounded(n: int, d: int) -> int {
    (2 * n + d) / (2 * d)
}

fn rounded_u32(n: u128, d: u128) -> (r: u32)
    requires
        0 < d <= u64::MAX,
        n <= 0xffff_ffff_ffff_ffff * 1000,
    ensures
        r == if rounded(n as int, d as int) <= u32::MAX {
            rounded(n as int, d as int)
        } else {
            u32::MAX as int
        },
{
    let q: u128 = (2 * n + d) / (2 * d);
    if q <= u32::MAX as u128 {
        q as u32
    } else {
        u32::MAX
    }
}

/// What was sent since the last reading, per second: packets and kilobits, whole
/// numbers. Times are in milliseconds. There is no rate without an earlier
/// reading, without time in between, or when a counter went backwards.
pub fn outbound_rates(prev: Option<(u64, u64, u64)>, packets: u64, bytes: u64, now: u64) -> (r:
    Option<(u32, u32)>)
    ensures
        match prev {
            None => r is None,
            Some((p, b, at)) => {
                &&& r is Some <==> at < now && p <= packets && b <= bytes
                &&& r is Some ==> {
                    let pps = rounded((packets - p) * 1000, now - at);
                    let kbits = rounded((bytes - b) * 8, now - at);
                    &&& r->Some_0.0 == if pps <= u32::MAX {
                        pps
                    } else {
                        u32::MAX as int
                    }
                    &&& r->Some_0.1 == if kbits <= u32::MAX {
                        kbits
                    } else {
                        u32::MAX as int
                    }
                }
            },
        },
{
    match prev {
        None => None,
        Some((p, b, at)) => {
            if now <= at || packets < p || bytes < b {
                return None;
            }
            let span: u128 = (now - at) as u128;
            let sent: u128 = (packets - p) as u128 * 1000;
            let bits: u128 = (bytes - b) as u128 * 8;
            Some((rounded_u32(sent, span), rounded_u32(bits, span)))
        },
    }
}

/// What is said when the microphone, taken without the system's processing, stops
/// during a call.
pub fn raw_mic_died(s: &mut AppState, error: String)
    ensures
        *final(s) == (AppState {
            audio: AudioState { mic_bypass_error: Some(error), ..old(s).audio },
            error_toast: final(s).error_toast,
            ..*old(s)
        }),
        final(s).error_toast is Some,
        final(s).error_toast->Some_0@ == "Your microphone stopped: "@ + error@
            + ". Leave and rejoin the voice channel to bring it back."@,
{
    s.error_toast = Some(
        "Your microphone stopped: ".to_owned().concat(error.as_str()).concat(
            ". Leave and rejoin the voice channel to bring it back.",
        ),
    );
    s.audio.mic_bypass_error = Some(error);
}

/// What the meter showed last, if anything yet, and whether we spoke.
#[derive(Debug, Clone, Copy, PartialEq, Eq, Structural)]
pub struct Meter {
    pub level: Option<u32>,
    pub level_pre: Option<u32>,
    pub speaking: bool,
}

/// What changed on the meter.
#[derive(Debug, Clone, Copy, PartialEq, Eq, Structural)]
pub struct MeterChange {
    pub level: Option<u32>,
    pub level_pre: Option<u32>,
    pub speaking: Option<bool>,
}

/// A peak as the meter shows it.
pub open spec fn shown_level(peak: i32) -> u32 {
    if peak < 0 {
        0
    } else if peak > 1000 {
        1000
    } else {
        peak as u32
    }
}

/// A value where it is news.
pub open spec fn news(last: Option<u32>, now: u32) -> Option<u32> {
    if last == Some(now) {
        None
    } else {
        Some(now)
    }
}

fn level_of(peak: i32) -> (r: u32)
    ensures
        r == shown_level(peak),
{
    if peak < 0 {
        0
    } else if peak > 1000 {
        1000
    } else {
        peak as u32
    }
}

fn news_of(last: Option<u32>, now: u32) -> (r: Option<u32>)
    ensures
        r == news(last, now),
{
    match last {
        Some(x) => if x == now {
            None
        } else {
            Some(now)
        },
        None => Some(now),
    }
}

impl Meter {
    /// Nothing shown yet.
    pub fn new() -> (r: Meter)
        ensures
            r == (Meter { level: None, level_pre: None, speaking: false }),
    {
        Meter { level: None, level_pre: None, speaking: false }
    }

    /// Reads the peaks since the last reading, and says what changed.
    pub fn read(&mut self, peak: i32, peak_pre: i32, open: bool) -> (r: MeterChange)
        ensures
            *final(self) == (Meter {
                level: Some(shown_level(peak)),
                level_pre: Some(shown_level(peak_pre)),
                speaking: open,
            }),
            r == (MeterChange {
                level: news(old(self).level, shown_level(peak)),
                level_pre: news(old(self).level_pre, shown_level(peak_pre)),
                speaking: if open == old(self).speaking {
                    None
                } else {
                    Some(open)
                },
            }),
    {
        let level: u32 = level_of(peak);
        let level_pre: u32 = level_of(peak_pre);
        let change: MeterChange = MeterChange {
            level: news_of(self.level, level),
            level_pre: news_of(self.level_pre, level_pre),
            speaking: if open == self.speaking {
                None
            } else {
                Some(open)
            },
        };
        self.level = Some(level);
        self.level_pre = Some(level_pre);
        self.speaking = open;
        change
    }
}

/// What is done about the statistics of a call.
#[derive(Debug, Clone, Copy, PartialEq, Eq, Structural)]
pub enum StatsStep {
    Nothing,
    /// They were shown and are wanted no more.
    Clear,
    Collect,
}

/// Decides about the statistics of a call.
pub fn stats_step(enabled: bool, were_shown: bool) -> (r: StatsStep)
    ensures
        r == if enabled {
            StatsStep::Collect
        } else if were_shown {
            StatsStep::Clear
        } else {
            StatsStep::Nothing
        },
{
    if enabled {
        StatsStep::Collect
    } else if were_shown {
        StatsStep::Clear
    } else {
        StatsStep::Nothing
    }
}

} // verus!
