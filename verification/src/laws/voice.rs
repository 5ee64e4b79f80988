//! What holds of a call, whatever is commanded and whatever its rooms say.

use crate::protocol::{Id, VoiceCmd};
use crate::state::{AudioState, SelfVoice, VoicePhase};
use crate::voice::{
    GateAction, GateState, QualityMsg, Restart, RoomEvent, RoomReaction, StreamAudio, TrackSource,
    VoiceAction, VoiceService, action_between, commanded, latest, screen_reactions, stepped,
    taken_from, voice_reactions,
};
use vstd::prelude::*;

verus! {

/// A mute reaches the microphone's track as it was commanded: an open session gets one
/// action, to mute the track or to open it, and the same is kept as our own state.
/// Nothing else changes.
pub proof fn a_mute_reaches_the_track(
    v: VoiceService,
    own: SelfVoice,
    audio: AudioState,
    muted: bool,
    w: VoiceService,
    own2: SelfVoice,
    audio2: AudioState,
    a: Seq<VoiceAction>,
)
    requires
        commanded(v, own, audio, VoiceCmd::SetMute { muted }, w, own2, audio2, a),
    ensures
        own2.muted == muted,
        v.live ==> a.len() == 1 && a[0] == VoiceAction::MuteTrack(muted),
        !v.live ==> a.len() == 0,
        w == v && audio2 == audio,
        own2.deafened == own.deafened && own2.speaking == own.speaking,
        own2.phase == own.phase && own2.channel_id == own.channel_id && own2.error == own.error,
{
}

/// Deafening is kept as it was commanded. It changes nothing else, and no track.
pub proof fn deafening_is_kept(
    v: VoiceService,
    own: SelfVoice,
    audio: AudioState,
    deafened: bool,
    w: VoiceService,
    own2: SelfVoice,
    audio2: AudioState,
    a: Seq<VoiceAction>,
)
    requires
        commanded(v, own, audio, VoiceCmd::SetDeafen { deafened }, w, own2, audio2, a),
    ensures
        own2.deafened == deafened,
        own2.muted == own.muted && own2.speaking == own.speaking,
        own2.phase == own.phase && own2.channel_id == own.channel_id && own2.error == own.error,
        w == v && audio2 == audio && a.len() == 0,
{
}

/// Connecting opens the room that was named, with the token that was given, and that is
/// the last thing done. A session that was open is closed before it, and no other is
/// open until the new one is.
pub proof fn connecting_opens_the_room(
    v: VoiceService,
    own: SelfVoice,
    audio: AudioState,
    livekit_url: String,
    token: String,
    channel_id: Id,
    w: VoiceService,
    own2: SelfVoice,
    audio2: AudioState,
    a: Seq<VoiceAction>,
)
    requires
        commanded(
            v,
            own,
            audio,
            VoiceCmd::Connect { livekit_url, token, channel_id },
            w,
            own2,
            audio2,
            a,
        ),
    ensures
        a.len() == (if v.live {
            2int
        } else {
            1int
        }),
        a.last() == (VoiceAction::Open { url: livekit_url, token, channel_id }),
        v.live ==> a[0] == VoiceAction::Close,
        !w.live,
        own2 == own,
        v.live ==> audio2.quality@.dom().len() == 0 && audio2.stream_has_audio@.dom().len() == 0
            && !audio2.screen_audio_joined,
        !v.live ==> audio2 == audio,
{
}

/// A change of devices opens the call again where it was: after a connection that came
/// about, the session is closed and the same room is opened with the same token.
pub proof fn a_device_change_comes_back_to_the_room(
    v: VoiceService,
    own: SelfVoice,
    audio: AudioState,
    livekit_url: String,
    token: String,
    channel_id: Id,
    w: VoiceService,
    own2: SelfVoice,
    audio2: AudioState,
    a: Seq<VoiceAction>,
    own3: SelfVoice,
    audio3: AudioState,
    cmd: VoiceCmd,
    x: VoiceService,
    own4: SelfVoice,
    audio4: AudioState,
    b: Seq<VoiceAction>,
)
    requires
        commanded(
            v,
            own,
            audio,
            VoiceCmd::Connect { livekit_url, token, channel_id },
            w,
            own2,
            audio2,
            a,
        ),
        cmd is SetDevices || cmd is SetBypassSystemProcessing,
        commanded(VoiceService { live: true, ..w }, own3, audio3, cmd, x, own4, audio4, b),
    ensures
        b.len() == 2,
        b[0] == VoiceAction::Close,
        b[1] matches VoiceAction::Reopen { url, token: t, channel_id: c, why } && url
            == livekit_url && t == token && c == channel_id && (why == Restart::DeviceChange) == (
        cmd is SetDevices) && (why == Restart::ProcessingChange) == !(cmd is SetDevices),
        own4 == own3,
        !x.live && x.last_connect == w.last_connect,
        audio4.quality@.dom().len() == 0 && audio4.stream_has_audio@.dom().len() == 0,
        !audio4.screen_audio_joined,
{
}

/// A device is used once it was chosen, and stays so while another is chosen on the
/// other side. Whether the system's processing is left out is kept as commanded.
pub proof fn chosen_devices_are_used(
    v: VoiceService,
    own: SelfVoice,
    audio: AudioState,
    cmd: VoiceCmd,
    w: VoiceService,
    own2: SelfVoice,
    audio2: AudioState,
    a: Seq<VoiceAction>,
)
    requires
        commanded(v, own, audio, cmd, w, own2, audio2, a),
    ensures
        cmd matches VoiceCmd::SetDevices { input: Some(i), .. } ==> audio2.selected_input_device
            == Some(i),
        cmd matches VoiceCmd::SetDevices { output: Some(o), .. } ==> audio2.selected_output_device
            == Some(o),
        cmd matches VoiceCmd::SetDevices { input: None, .. } ==> audio2.selected_input_device
            == audio.selected_input_device,
        cmd matches VoiceCmd::SetDevices { output: None, .. } ==> audio2.selected_output_device
            == audio.selected_output_device,
        !(cmd is SetDevices) ==> audio2.selected_input_device == audio.selected_input_device
            && audio2.selected_output_device == audio.selected_output_device,
        cmd matches VoiceCmd::SetBypassSystemProcessing { enabled } ==> (
        audio2.bypass_system_processing == enabled && audio2.mic_bypass_error is None),
        !(cmd is SetBypassSystemProcessing) ==> audio2.bypass_system_processing
            == audio.bypass_system_processing,
{
}

/// Disconnecting leaves the call: what was open is closed and nothing else is done, we
/// are in no channel, and until the next connection nothing is opened again, whatever
/// is commanded.
pub proof fn disconnecting_leaves_for_good(
    v: VoiceService,
    own: SelfVoice,
    audio: AudioState,
    w: VoiceService,
    own2: SelfVoice,
    audio2: AudioState,
    a: Seq<VoiceAction>,
    cmd: VoiceCmd,
    x: VoiceService,
    own3: SelfVoice,
    audio3: AudioState,
    b: Seq<VoiceAction>,
)
    requires
        commanded(v, own, audio, VoiceCmd::Disconnect, w, own2, audio2, a),
        !(cmd is Connect),
        commanded(w, own2, audio2, cmd, x, own3, audio3, b),
    ensures
        v.live ==> a.len() == 1 && a[0] == VoiceAction::Close,
        !v.live ==> a.len() == 0,
        own2.phase == VoicePhase::Idle && own2.channel_id is None && own2.error is None,
        own2.muted == own.muted && own2.deafened == own.deafened,
        !w.live && w.last_connect is None,
        v.live ==> audio2.quality@.dom().len() == 0 && audio2.stream_has_audio@.dom().len() == 0
            && !audio2.screen_audio_joined,
        forall|i: int| 0 <= i < b.len() ==> #[trigger] b[i] == VoiceAction::ListDevices,
        own3.channel_id is None && !x.live && x.last_connect is None,
{
}

/// A setting of the microphone is kept as it was commanded, brought within its bounds
/// where it lies outside of them, and the session goes on as it is.
pub proof fn settings_are_kept_within_bounds(
    v: VoiceService,
    own: SelfVoice,
    audio: AudioState,
    cmd: VoiceCmd,
    w: VoiceService,
    own2: SelfVoice,
    audio2: AudioState,
    a: Seq<VoiceAction>,
)
    requires
        commanded(v, own, audio, cmd, w, own2, audio2, a),
    ensures
        cmd matches VoiceCmd::SetSensitivity { threshold } ==> {
            &&& 1 <= audio2.mic_sensitivity <= 1000
            &&& 1 <= threshold <= 1000 ==> audio2.mic_sensitivity == threshold
            &&& threshold > 1000 ==> audio2.mic_sensitivity == 1000
        },
        cmd matches VoiceCmd::SetDenoiseAttenLim { db } ==> {
            &&& 6 <= audio2.denoise_atten_lim_db <= 60
            &&& 6 <= db <= 60 ==> audio2.denoise_atten_lim_db == db
            &&& db > 60 ==> audio2.denoise_atten_lim_db == 60
        },
        cmd matches VoiceCmd::SetMicVolume { percent } ==> {
            &&& audio2.mic_volume <= 200
            &&& percent <= 200 ==> audio2.mic_volume == percent
        },
        cmd matches VoiceCmd::SetVoiceBitrate { kbps } ==> (audio2.voice_bitrate_kbps == 24
            || audio2.voice_bitrate_kbps == 48) && (kbps == 24 || kbps == 48
            ==> audio2.voice_bitrate_kbps == kbps) && (kbps != 24 ==> audio2.voice_bitrate_kbps
            == 48),
        cmd matches VoiceCmd::SetNoiseCancellation { enabled } ==> audio2.noise_cancellation
            == enabled,
        cmd matches VoiceCmd::SetAutoGainControl { enabled } ==> audio2.auto_gain_control
            == enabled,
        cmd matches VoiceCmd::SetStatsPolling { enabled } ==> audio2.stats_polling == enabled,
        !(cmd is SetSensitivity) ==> audio2.mic_sensitivity == audio.mic_sensitivity,
        !(cmd is SetDenoiseAttenLim) ==> audio2.denoise_atten_lim_db
            == audio.denoise_atten_lim_db,
        !(cmd is SetMicVolume) ==> audio2.mic_volume == audio.mic_volume,
        !(cmd is SetVoiceBitrate) ==> audio2.voice_bitrate_kbps == audio.voice_bitrate_kbps,
        !(cmd is SetNoiseCancellation) ==> audio2.noise_cancellation == audio.noise_cancellation,
        !(cmd is SetAutoGainControl) ==> audio2.auto_gain_control == audio.auto_gain_control,
        !(cmd is SetStatsPolling) ==> audio2.stats_polling == audio.stats_polling,
        cmd is SetSensitivity || cmd is SetDenoiseAttenLim || cmd is SetMicVolume || cmd
            is SetVoiceBitrate || cmd is SetNoiseCancellation || cmd is SetAutoGainControl || cmd
            is SetStatsPolling ==> own2 == own && w == v && a.len() == 0,
        audio2.session_epoch == audio.session_epoch,
{
}

/// What is captured of this machine is handed on to an open session just as it was
/// commanded, and to none that is closed.
pub proof fn captures_are_handed_on(
    v: VoiceService,
    own: SelfVoice,
    audio: AudioState,
    cmd: VoiceCmd,
    w: VoiceService,
    own2: SelfVoice,
    audio2: AudioState,
    a: Seq<VoiceAction>,
)
    requires
        commanded(v, own, audio, cmd, w, own2, audio2, a),
        cmd is SetSystemAudio || cmd is SetScreenAudio || cmd is SetScreenVideo,
    ensures
        w == v && own2 == own && audio2 == audio,
        !v.live ==> a.len() == 0,
        v.live ==> a.len() == 1,
        v.live ==> (cmd matches VoiceCmd::SetSystemAudio { enabled, target } ==> a[0] == (
        VoiceAction::SystemAudio { enabled, target })),
        v.live ==> (cmd matches VoiceCmd::SetScreenAudio { room } ==> a[0]
            == VoiceAction::ScreenAudio(room)),
        v.live ==> (cmd matches VoiceCmd::SetScreenVideo { room, target, settings } ==> a[0] == (
        VoiceAction::ScreenVideo { room, target, settings })),
{
}

/// Only a connection opens a room, and only a command to list devices lists them.
pub proof fn only_a_connection_opens(
    v: VoiceService,
    own: SelfVoice,
    audio: AudioState,
    cmd: VoiceCmd,
    w: VoiceService,
    own2: SelfVoice,
    audio2: AudioState,
    a: Seq<VoiceAction>,
)
    requires
        commanded(v, own, audio, cmd, w, own2, audio2, a),
    ensures
        forall|i: int| 0 <= i < a.len() && #[trigger] a[i] is Open ==> cmd is Connect,
        forall|i: int| 0 <= i < a.len() && #[trigger] a[i] is Reopen ==> v.live,
        forall|i: int| 0 <= i < a.len() && #[trigger] a[i] is Close ==> v.live,
        forall|i: int| 0 <= i < a.len() && #[trigger] a[i] is ListDevices ==> cmd is ListDevices,
        cmd is ListDevices ==> a.len() == 1 && a[0] == VoiceAction::ListDevices && w == v && own2
            == own && audio2 == audio,
        own2.speaking == own.speaking,
        !(cmd is SetMute) ==> own2.muted == own.muted,
        !(cmd is SetDeafen) ==> own2.deafened == own.deafened,
{
}

/// A voice is played where its track is heard, as a voice; the sound of a screen as
/// that of a screen. Nothing is played for any other event, and nothing but sound.
pub proof fn the_others_are_played(ev: RoomEvent)
    ensures
        ev matches RoomEvent::TrackSubscribed { identity, source, audio: true } ==> voice_reactions(
            ev,
        ).last() == (RoomReaction::Play {
            identity,
            is_stream: source == TrackSource::ScreenshareAudio,
        }),
        forall|i: int|
            0 <= i < voice_reactions(ev).len() && #[trigger] voice_reactions(ev)[i] is Play ==> (
            ev matches RoomEvent::TrackSubscribed { identity, source, audio } && audio
                && voice_reactions(ev)[i]->Play_identity == identity),
{
}

/// Who leaves the room is forgotten, how well and how loud they were heard alike; nobody
/// else is. A room that is gone forgets everybody.
pub proof fn who_leaves_is_forgotten(ev: RoomEvent)
    ensures
        ev matches RoomEvent::ParticipantDisconnected { identity } ==> {
            &&& voice_reactions(ev).len() == 2
            &&& voice_reactions(ev).contains(RoomReaction::Quality(QualityMsg::Drop(identity)))
            &&& voice_reactions(ev).contains(RoomReaction::ForgetGain(identity))
        },
        ev matches RoomEvent::QualityChanged { identity, health } ==> voice_reactions(ev).len() == 1
            && voice_reactions(ev)[0] == RoomReaction::Quality(
            QualityMsg::Report(identity, health),
        ),
        ev is Disconnected || ev is Ended ==> voice_reactions(ev).contains(
            RoomReaction::Quality(QualityMsg::Clear),
        ),
        forall|i: int|
            0 <= i < voice_reactions(ev).len() && #[trigger] voice_reactions(ev)[i] is ForgetGain
                ==> ev is ParticipantDisconnected,
        ev matches RoomEvent::EncryptionChanged { readable } ==> (voice_reactions(ev).len() == 0)
            == readable,
{
    if let RoomEvent::ParticipantDisconnected { identity } = ev {
        assert(voice_reactions(ev)[0] == RoomReaction::Quality(QualityMsg::Drop(identity)));
        assert(voice_reactions(ev)[1] == RoomReaction::ForgetGain(identity));
    }
    if ev is Disconnected || ev is Ended {
        assert(voice_reactions(ev)[0] == RoomReaction::Quality(QualityMsg::Clear));
    }
}

/// In the room of screens the sound of others is asked for and played, and never our
/// own.
pub proof fn our_own_screen_is_not_heard(ev: RoomEvent, us: Seq<char>)
    ensures
        ev matches RoomEvent::TrackPublished { identity, source } ==> (screen_reactions(ev, us).len()
            > 0) == (source == TrackSource::ScreenshareAudio && identity@ != us),
        forall|i: int|
            0 <= i < screen_reactions(ev, us).len() && #[trigger] screen_reactions(ev, us)[i]
                is Subscribe ==> (ev matches RoomEvent::TrackPublished { identity, .. }
                && identity@ != us),
        ev matches RoomEvent::TrackSubscribed { identity, audio: true, .. } ==> screen_reactions(
            ev,
            us,
        ).last() == (RoomReaction::Play { identity, is_stream: true }) && screen_reactions(ev, us)[0]
            == RoomReaction::Stream(StreamAudio::Present(identity)),
        ev is Disconnected ==> screen_reactions(ev, us).len() == 2 && screen_reactions(ev, us)[0]
            == RoomReaction::RoomDead && screen_reactions(ev, us)[1] == RoomReaction::Stream(
            StreamAudio::RoomGone,
        ),
        (ev matches RoomEvent::TrackUnpublished { identity, source } && source
            == TrackSource::ScreenshareAudio) ==> screen_reactions(ev, us).len() == 1
            && screen_reactions(ev, us)[0] == RoomReaction::Stream(
            StreamAudio::Gone(ev->TrackUnpublished_identity),
        ),
{
}

/// Samples are played in the order in which they came: a track gives up at most one
/// before the one it plays, and what stays behind is what was behind that.
pub proof fn samples_keep_their_order<T>(s: Seq<T>, counter: u32, overrun: nat, underrun: nat)
    ensures
        taken_from(s.len(), counter, overrun, underrun) <= 2,
        taken_from(s.len(), counter, overrun, underrun) == 2 ==> s.len() > overrun && counter % 32
            == 0,
        taken_from(s.len(), counter, overrun, underrun) == 0 ==> s.len() < underrun && counter % 64
            == 0,
        underrun <= s.len() <= overrun ==> taken_from(s.len(), counter, overrun, underrun) == 1,
        s.len() > overrun && counter % 32 == 0 ==> taken_from(s.len(), counter, overrun, underrun)
            == 2,
{
}

/// A buffer that runs over keeps the newest samples, in their order, and as many as it
/// may hold.
pub proof fn the_newest_samples_stay<T>(s: Seq<T>, cap: nat)
    ensures
        latest(s, cap).len() == if s.len() < cap {
            s.len()
        } else {
            cap
        },
        forall|i: int|
            0 <= i < latest(s, cap).len() ==> #[trigger] latest(s, cap)[i] == s[s.len()
                - latest(s, cap).len() + i],
{
}

/// The noise gate opens for what is louder than its level, at once; what is quieter does
/// not open it.
pub proof fn the_gate_opens_for_speech(g: GateState, peak: i32, open_at: i32)
    requires
        0 <= g.envelope,
        0 <= open_at,
    ensures
        peak > open_at ==> stepped(g, peak, open_at).was_open && stepped(g, peak, open_at).hangover
            == 30,
        g.hangover == 0 && peak <= open_at && g.envelope <= open_at ==> !stepped(
            g,
            peak,
            open_at,
        ).was_open,
        stepped(g, peak, open_at).was_open == (stepped(g, peak, open_at).hangover > 0),
        g.was_open && !stepped(g, peak, open_at).was_open ==> action_between(
            g.was_open,
            stepped(g, peak, open_at).was_open,
        ) == GateAction::RampOut,
        !g.was_open && stepped(g, peak, open_at).was_open ==> action_between(
            g.was_open,
            stepped(g, peak, open_at).was_open,
        ) == GateAction::RampIn,
        g.was_open && stepped(g, peak, open_at).was_open ==> action_between(
            g.was_open,
            stepped(g, peak, open_at).was_open,
        ) == GateAction::Pass,
        !g.was_open && !stepped(g, peak, open_at).was_open ==> action_between(
            g.was_open,
            stepped(g, peak, open_at).was_open,
        ) == GateAction::Drop,
{
}

} // verus!
