//! What holds of sharing and watching screens, and of the microphone.

use crate::features::screenshare::{
    QualityPreset, ScreenWants, ShareMessage, capture_for, preset_for, same_wants, share_complaint,
    target_or_first, watched,
};
use crate::features::sounds::has_more;
use crate::protocol::ShareTarget;
use crate::rawmic::{SUBTYPE_IEEE_FLOAT, SUBTYPE_PCM, Sample, WaveFormat, described};
use crate::state::{AppState, AudioState};
use crate::voice::{
    ScreenAudioPlan, StreamAudio, plan_leaves, rounded, same_picture, same_room, screens_left,
    shown_level,
};
use vstd::prelude::*;
use vstd::string::*;

verus! {

/// What is heard of the watched stream: nothing while deafened, where none is watched or
/// where it is muted; else it is as loud as it was set, and full where nothing was set.
pub proof fn what_is_heard_of_a_stream(s: AppState)
    ensures
        s.voice.deafened || s.screen_viewing is None ==> watched(s) == 0,
        !s.voice.deafened ==> (s.screen_viewing matches Some(w) ==> {
            &&& s.stream_muted@.dom().contains(w@) ==> watched(s) == 0
            &&& !s.stream_muted@.dom().contains(w@) && s.stream_volumes@.dom().contains(w@)
                ==> watched(s) == s.stream_volumes@[w@]
            &&& !s.stream_muted@.dom().contains(w@) && !s.stream_volumes@.dom().contains(w@)
                ==> watched(s) == 100
        }),
{
}

/// What is captured is what its preset promises, whether the page captures it or the
/// system does: the same size, as many pictures and as much of the line.
pub proof fn presets_capture_alike(id: Seq<char>, p: QualityPreset)
    requires
        preset_for(id, p),
    ensures
        capture_for(id).width == p.width && capture_for(id).height == p.height,
        capture_for(id).fps == p.fps && capture_for(id).max_bitrate == p.bitrate,
        p.width * 9 == p.height * 16,
        15 <= p.fps <= 60,
        id == "smooth"@ ==> p.fps == 60 && p.height == 720,
        id == "crisp"@ ==> p.fps == 15 && p.height == 1080,
        id == "ultra"@ ==> p.fps == 30 && p.height == 1440,
        id != "smooth"@ && id != "crisp"@ && id != "ultra"@ ==> p.fps == 30 && p.height == 1080,
{
    reveal_strlit("smooth");
    reveal_strlit("crisp");
    reveal_strlit("ultra");
    assert("smooth"@.len() == 6 && "crisp"@[0] == 'c' && "ultra"@[0] == 'u');
}

/// What is captured is what was picked, and the first screen only where nothing was.
pub proof fn what_was_picked_is_captured(target: ShareTarget)
    ensures
        target_or_first(Some(target)) == target,
        target_or_first(None) == ShareTarget::Display(0),
{
}

/// The voice service is told again exactly where something it was told has changed.
pub proof fn a_change_is_told(a: ScreenWants, b: ScreenWants)
    ensures
        same_wants(a, a),
        same_wants(a, b) == same_wants(b, a),
        same_wants(a, b) ==> a.epoch == b.epoch && a.publish_system == b.publish_system && a.joined
            == b.joined && a.target == b.target && a.audio_room is Some == b.audio_room is Some
            && a.video_room is Some == b.video_room is Some,
        same_wants(a, b) && a.audio_room is Some ==> a.audio_room->Some_0.0@
            == b.audio_room->Some_0.0@ && a.audio_room->Some_0.1@ == b.audio_room->Some_0.1@,
        same_wants(a, b) && a.video_room is Some ==> a.video_room->Some_0.0@
            == b.video_room->Some_0.0@ && a.video_room->Some_0.1@ == b.video_room->Some_0.1@,
{
}

/// A room is the same only with the same place and the same token, and a picture only
/// with the same target besides.
pub proof fn rooms_and_pictures_are_told_apart(
    a: (String, String),
    b: (String, String),
    t: ShareTarget,
    u: ShareTarget,
)
    ensures
        same_room(a, b) <==> a.0@ == b.0@ && a.1@ == b.1@,
        same_picture((a, t), b, u) ==> same_room(a, b) && t == u,
        same_picture((a, t), a, t),
{
}

/// Whatever makes us leave the room of screens leaves nothing of it behind: nobody's
/// stream is heard, and it is not ours to play. Nothing else of the sound changes.
pub proof fn a_left_room_is_silent(audio: AudioState, audio2: AudioState, plan: ScreenAudioPlan)
    requires
        screens_left(audio, audio2),
    ensures
        !audio2.screen_audio_joined,
        audio2.stream_has_audio@.dom().len() == 0,
        audio2.quality == audio.quality && audio2.session_epoch == audio.session_epoch,
        audio2.mic_volume == audio.mic_volume && audio2.selected_input_device
            == audio.selected_input_device,
        plan is Leave ==> plan_leaves(plan),
        plan is Keep ==> !plan_leaves(plan),
        plan matches ScreenAudioPlan::Join { leave_first } ==> plan_leaves(plan) == leave_first,
        plan matches ScreenAudioPlan::NoIdentity { leave_first } ==> plan_leaves(plan)
            == leave_first,
{
}

/// What is complained of is what failed: a share that works is not.
pub proof fn only_failures_are_complained_of(m: ShareMessage)
    ensures
        m is Started || m is Ended || m is Reconnecting || m is Undecryptable || m is StreamAudio
            || m is Other ==> share_complaint(m) is None,
        m is Unavailable || m is EchoRisk || m is RoomError || m is TrackTimeout || m
            is EncryptionError ==> share_complaint(m) is Some,
        m matches ShareMessage::Audio { published, .. } ==> (share_complaint(m) is None)
            == published,
{
}

/// Somebody came where the later list names one that the earlier does not, whatever the
/// order.
pub proof fn who_came_is_noticed(a: Seq<Seq<char>>, b: Seq<Seq<char>>, who: Seq<char>)
    ensures
        a.contains(who) && !b.contains(who) ==> has_more(a, b),
        !has_more(a, b) && a.contains(who) ==> b.contains(who),
        !has_more(a, a),
{
    if a.contains(who) {
        let i = choose|i: int| 0 <= i < a.len() && a[i] == who;
        assert(a[i] == who);
    }
}

/// A microphone is captured just as the system describes it, and only where its samples
/// are fractions or whole numbers of a width that is known.
pub proof fn a_microphone_is_taken_as_described(f: WaveFormat)
    ensures
        described(f) matches Ok(format) ==> {
            &&& format.rate == f.rate && format.channels == f.channels
            &&& f.rate > 0 && f.channels > 0
            &&& format.sample == Sample::Float32 ==> f.bits == 32 && (f.tag == 3 || (f.tag == 0xFFFE
                && f.sub_format == SUBTYPE_IEEE_FLOAT))
            &&& format.sample == Sample::Int16 ==> f.bits == 16 && (f.tag == 1 || (f.tag == 0xFFFE
                && f.sub_format == SUBTYPE_PCM))
            &&& format.sample == Sample::Int32 ==> f.bits == 32 && (f.tag == 1 || (f.tag == 0xFFFE
                && f.sub_format == SUBTYPE_PCM))
            &&& f.tag == 0xFFFE ==> f.extra >= 22
        },
        f.tag == 3 && f.bits == 32 && f.rate > 0 && f.channels > 0 ==> described(f) is Ok,
        f.tag == 1 && (f.bits == 16 || f.bits == 32) && f.rate > 0 && f.channels > 0 ==> described(
            f,
        ) is Ok,
{
}

/// A rate is rounded to the nearest whole number: it is off by half at most.
pub proof fn rates_are_rounded_to_the_nearest(n: int, d: int)
    requires
        n >= 0,
        d > 0,
    ensures
        2 * n - d < 2 * d * rounded(n, d) <= 2 * n + d,
{
    let q = (2 * n + d) / (2 * d);
    assert(2 * d * q <= 2 * n + d < 2 * d * q + 2 * d) by (nonlinear_arith)
        requires
            d > 0,
            q == (2 * n + d) / (2 * d),
    ;
}

/// The meter shows a peak as it is, from nothing up to a thousand.
pub proof fn the_meter_shows_the_peak(peak: i32)
    ensures
        0 <= peak <= 1000 ==> shown_level(peak) == peak,
        peak < 0 ==> shown_level(peak) == 0,
        peak > 1000 ==> shown_level(peak) == 1000,
{
}

} // verus!
