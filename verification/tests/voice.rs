use discordia::protocol::{CaptureSettings, Id, ShareTarget, VoiceCmd};
use discordia::state::{AppState, ConnectionHealth, VoicePhase};
use discordia::table::TextTable;
use discordia::voice::{
    apply_quality, apply_stream_audio, clamp, cut_frames, gain_for, is_open, judge_frame,
    model_step,
    on_screen_room_event, on_voice_room_event, outbound_rates, plan_screen_audio,
    plan_screen_video, plan_system_audio, pop_drift_compensated, push_capped, raw_mic_died,
    screen_audio_joined, screen_video_failed, stats_step, system_audio_died, system_audio_failed,
    take_up_screen_audio, wanted, xorshift32, CapturePlan, GateAction, GateState, Meter, ModelStep,
    QualityMsg, Restart, RoomEvent, RoomReaction, ScreenAudioPlan,
    ScreenVideoPlan, StatsStep, StreamAudio, TrackSource,
    VoiceAction, VoiceService, GATE_CLOSE_RATIO_PCT, GATE_ENVELOPE_DECAY_PCT,
    GATE_HANGOVER_FRAMES,
};
use std::collections::VecDeque;

#[test]
fn the_gate_holds_below_the_level_it_opened_at() {
    let open_at = 21;
    let hold_at = open_at * GATE_CLOSE_RATIO_PCT / 100;
    assert!(hold_at < open_at, "hysteresis has to hold below the opening");

    let tail = 14;
    assert!(tail < open_at, "precondition: would not open the noise gate");
    assert!(
        tail > hold_at,
        "a tail between the two bars is exactly what the hysteresis is for"
    );
}

#[test]
fn the_gate_envelope_never_reads_below_the_hop() {
    let mut env = 0i32;
    for peak in [0, 5, 900, 3, 0, 0, 40] {
        env = peak.max(env * GATE_ENVELOPE_DECAY_PCT / 100);
        assert!(env >= peak, "envelope {env} read under its own hop {peak}");
    }
    assert!(env < 900, "envelope latched at the loudest hop it ever saw");
    let mut gate = GateState::default();
    for peak in [0, 5, 900, 3, 0, 0, 40] {
        gate.step(peak, 21);
        assert!(gate.envelope >= peak);
    }
    assert_eq!(gate.envelope, env);
}

#[test]
fn muting_makes_the_gate_forget_the_level_it_was_hearing() {
    let open_at = 21;
    let mut gate = GateState::default();
    for _ in 0..5 {
        gate.step(900, open_at);
    }
    assert!(gate.was_open, "precondition: loud speech opened the noise gate");

    gate.silence();

    assert_eq!(
        gate.step(5, open_at),
        GateAction::Drop,
        "a quiet hop after the mute was judged against the level from before it"
    );
}

#[test]
fn a_gate_that_kept_its_envelope_would_hold_open_for_a_third_of_a_second() {
    let open_at = 21;
    let mut gate = GateState::default();
    for _ in 0..5 {
        gate.step(900, open_at);
    }
    gate.hangover = 0;

    let held = (0..100)
        .take_while(|_| gate.step(5, open_at) != GateAction::Drop)
        .count();
    assert!(held > 30, "it has to be long, not a hop or two; got {held}");
}

#[test]
fn one_ramp_in_at_the_start_and_one_ramp_out_at_the_end() {
    let open_at = 21;
    let mut gate = GateState::default();
    assert_eq!(gate.step(900, open_at), GateAction::RampIn);
    assert_eq!(gate.step(900, open_at), GateAction::Pass);

    let tail: Vec<_> = (0..GATE_HANGOVER_FRAMES + 60)
        .map(|_| gate.step(0, open_at))
        .collect();
    assert_eq!(
        tail.iter().filter(|a| **a == GateAction::RampOut).count(),
        1,
        "the fade out has to happen once, not on every silent hop"
    );
    assert_eq!(*tail.last().unwrap(), GateAction::Drop);
    assert!(is_open(GateAction::Pass) && !is_open(GateAction::Drop));
}

#[test]
fn outbound_rates_are_per_second_and_need_two_readings() {
    let t0 = 5_000;
    assert_eq!(outbound_rates(None, 50, 6_000, t0), None);

    let t1 = t0 + 1_000;
    assert_eq!(outbound_rates(Some((0, 0, t0)), 50, 6_000, t1), Some((50, 48)));

    let t2 = t0 + 2_000;
    assert_eq!(outbound_rates(Some((0, 0, t0)), 50, 6_000, t2), Some((25, 24)));
}

#[test]
fn outbound_rates_refuse_a_counter_that_went_backwards() {
    let t0 = 5_000;
    let t1 = t0 + 1_000;
    assert_eq!(outbound_rates(Some((900, 0, t0)), 10, 6_000, t1), None);
    assert_eq!(outbound_rates(Some((0, 90_000, t0)), 50, 600, t1), None);
    assert_eq!(outbound_rates(Some((0, 0, t0)), 50, 6_000, t0), None);
}

fn connect(url: &str) -> VoiceCmd {
    VoiceCmd::Connect { livekit_url: url.into(), token: "t".into(), channel_id: Id { value: 1 } }
}

#[test]
fn a_session_is_opened_again_when_the_device_changes() {
    let mut v = VoiceService::new();
    let mut s = AppState::empty();
    let actions = v.handle(&mut s.voice, &mut s.audio, connect("u"));
    assert!(matches!(actions.last(), Some(VoiceAction::Open { url, .. }) if url == "u"));
    v.opened(&mut s);
    assert_eq!(s.voice.phase, VoicePhase::Connected);
    assert_eq!(s.audio.session_epoch, 1);
    let change = VoiceCmd::SetDevices { input: Some("mic".into()), output: None };
    let actions = v.handle(&mut s.voice, &mut s.audio, change);
    assert!(matches!(actions[0], VoiceAction::Close));
    assert!(matches!(
        &actions[1],
        VoiceAction::Reopen { url, why: Restart::DeviceChange, .. } if url == "u"
    ));
    v.open_failed(&mut s, Some(Restart::DeviceChange), "no".into());
    assert_eq!(s.voice.phase, VoicePhase::Error);
    assert!(s.voice.error.as_deref().unwrap().starts_with("reconnect after "));
    let actions = v.handle(&mut s.voice, &mut s.audio, VoiceCmd::ListDevices);
    assert!(matches!(actions[..], [VoiceAction::ListDevices]));
}

#[test]
fn the_room_of_a_call_is_followed() {
    let left = RoomEvent::ParticipantDisconnected { identity: "a".into() };
    assert_eq!(
        on_voice_room_event(left),
        vec![
            RoomReaction::Quality(QualityMsg::Drop("a".into())),
            RoomReaction::ForgetGain("a".into()),
        ]
    );
    let stream = RoomEvent::TrackSubscribed {
        identity: "a".into(),
        source: TrackSource::ScreenshareAudio,
        audio: true,
    };
    assert_eq!(
        on_voice_room_event(stream),
        vec![
            RoomReaction::Stream(StreamAudio::Present("a".into())),
            RoomReaction::Play { identity: "a".into(), is_stream: true },
        ]
    );
    assert!(on_voice_room_event(RoomEvent::Other).is_empty());
    assert_eq!(
        on_screen_room_event(RoomEvent::Disconnected, "me"),
        vec![RoomReaction::RoomDead, RoomReaction::Stream(StreamAudio::RoomGone)]
    );
    assert!(wanted(TrackSource::ScreenshareAudio, "a", "me"));
    assert!(!wanted(TrackSource::Microphone, "a", "me"));
    let mut s = AppState::empty();
    let report = QualityMsg::Report("a".into(), ConnectionHealth::Poor);
    assert!(!apply_quality(&mut s.audio, report));
    assert_eq!(s.audio.quality.get("a"), Some(&ConnectionHealth::Poor));
    assert!(apply_quality(&mut s.audio, QualityMsg::Undecryptable));
    apply_stream_audio(&mut s.audio, StreamAudio::Present("a".into()));
    assert!(s.audio.stream_has_audio.contains("a"));
    system_audio_failed(&mut s, "no");
    assert!(s.error_toast.take().is_some());
    screen_video_failed(&mut s, "no");
    assert!(s.error_toast.is_some());
}

#[test]
fn captures_and_rooms_are_planned() {
    let room = Some(("u".to_string(), "t".to_string()));
    assert_eq!(
        plan_screen_audio(&None, &room, true),
        ScreenAudioPlan::Join { leave_first: false }
    );
    let joined = Some((("u".to_string(), "t".to_string()), true));
    assert_eq!(plan_screen_audio(&joined, &room, true), ScreenAudioPlan::Keep);
    let dead = Some((("u".to_string(), "t".to_string()), false));
    assert_eq!(
        plan_screen_audio(&dead, &room, true),
        ScreenAudioPlan::Join { leave_first: true }
    );
    assert_eq!(plan_screen_audio(&joined, &None, true), ScreenAudioPlan::Leave);
    assert_eq!(
        plan_screen_audio(&None, &room, false),
        ScreenAudioPlan::NoIdentity { leave_first: false }
    );
    let one = Some(ShareTarget::Display(1));
    assert_eq!(plan_system_audio(None, true, one, true), CapturePlan::Start { stop_first: false });
    assert_eq!(plan_system_audio(Some(one), true, one, true), CapturePlan::Keep);
    assert_eq!(
        plan_system_audio(Some(one), true, Some(ShareTarget::Window(1)), true),
        CapturePlan::Start { stop_first: true }
    );
    assert_eq!(plan_system_audio(Some(None), false, None, true), CapturePlan::Stop);
    assert_eq!(model_step(true, false, 0, 0), ModelStep::Load);
    assert_eq!(model_step(true, true, 1, 2), ModelStep::Filter { set_limit: true });
    assert_eq!(model_step(false, true, 1, 2), ModelStep::Release);
    assert_eq!(model_step(false, false, 1, 2), ModelStep::Nothing);
}

#[test]
fn samples_are_framed_capped_and_drained() {
    let mut accum = vec![1, 2, 3, 4, 5];
    assert_eq!(cut_frames(&mut accum, 2), vec![vec![1, 2], vec![3, 4]]);
    assert_eq!(accum, vec![5]);
    let mut track: VecDeque<i32> = VecDeque::new();
    push_capped(&mut track, &vec![1, 2, 3, 4], 3);
    assert!(track.len() <= 3);
    assert_eq!(track.back(), Some(&4));
    let mut buf: VecDeque<i32> = VecDeque::from(vec![1, 2, 3]);
    assert_eq!(pop_drift_compensated(&mut buf, 1, 10, 0, 0), 1);
    assert_eq!(pop_drift_compensated(&mut buf, 32, 1, 0, 0), 3, "one is skipped when too many wait");
    assert_eq!(pop_drift_compensated(&mut buf, 1, 10, 0, 9), 9, "nothing is silence");
    let mut seed = 1u32;
    assert_eq!(xorshift32(&mut seed), 270_369 >> 8);
    assert_eq!(seed, 270_369);
    assert_eq!(clamp(9, 1, 5), 5);
}

#[test]
fn everybody_has_a_gain() {
    let mut gains = TextTable::new();
    gains.insert("a".to_string(), 3);
    let mut streams = TextTable::new();
    streams.insert("a".to_string(), 7);
    assert_eq!(gain_for(false, "a", false, &gains, &streams, 0, 1), 3);
    assert_eq!(gain_for(true, "a", false, &gains, &streams, 0, 1), 7);
    assert_eq!(gain_for(false, "b", false, &gains, &streams, 0, 1), 1);
    assert_eq!(gain_for(false, "a", true, &gains, &streams, 0, 1), 0);
}

#[test]
fn the_meter_shows_what_changed() {
    let mut m = Meter::new();
    let first = m.read(0, 2000, false);
    assert_eq!((first.level, first.level_pre, first.speaking), (Some(0), Some(1000), None));
    let second = m.read(0, -5, true);
    assert_eq!((second.level, second.level_pre, second.speaking), (None, Some(0), Some(true)));
    assert_eq!(stats_step(true, false), StatsStep::Collect);
    assert_eq!(stats_step(false, true), StatsStep::Clear);
    assert_eq!(stats_step(false, false), StatsStep::Nothing);
    let mut s = AppState::empty();
    raw_mic_died(&mut s, "gone".into());
    assert_eq!(s.audio.mic_bypass_error.as_deref(), Some("gone"));
    assert_eq!(
        s.error_toast.as_deref(),
        Some("Your microphone stopped: gone. Leave and rejoin the voice channel to bring it back.")
    );
}

#[test]
fn a_picture_is_planned_by_its_room_and_target() {
    let room = Some(("u".to_string(), "t".to_string()));
    let shown = ShareTarget::Display(1);
    let running = Some((("u".to_string(), "t".to_string()), shown));
    assert_eq!(plan_screen_video(&None, &None, shown, true), ScreenVideoPlan::Keep);
    assert_eq!(plan_screen_video(&running, &None, shown, true), ScreenVideoPlan::Stop);
    assert_eq!(plan_screen_video(&running, &room, shown, false), ScreenVideoPlan::Keep);
    assert_eq!(
        plan_screen_video(&running, &room, ShareTarget::Window(1), true),
        ScreenVideoPlan::Start { stop_first: true }
    );
    assert_eq!(
        plan_screen_video(&None, &room, shown, true),
        ScreenVideoPlan::Start { stop_first: false }
    );
    assert_eq!(
        plan_screen_video(&None, &room, shown, false),
        ScreenVideoPlan::Unsupported { stop_first: false }
    );
}

fn heard(s: &mut AppState) {
    s.audio.quality.insert("a".into(), ConnectionHealth::Poor);
    apply_stream_audio(&mut s.audio, StreamAudio::Present("a".into()));
    s.audio.screen_audio_joined = true;
}

fn is_hushed(s: &AppState) -> bool {
    s.audio.quality.get("a").is_none()
        && !s.audio.stream_has_audio.contains("a")
        && !s.audio.screen_audio_joined
}

#[test]
fn a_closed_session_leaves_nothing_behind() {
    for cmd in [
        connect("v"),
        VoiceCmd::Disconnect,
        VoiceCmd::SetDevices { input: Some("mic".into()), output: None },
    ] {
        let mut v = VoiceService::new();
        let mut s = AppState::empty();
        v.handle(&mut s.voice, &mut s.audio, connect("u"));
        v.opened(&mut s);
        heard(&mut s);
        v.handle(&mut s.voice, &mut s.audio, cmd);
        assert!(is_hushed(&s));
    }
    let mut v = VoiceService::new();
    let mut s = AppState::empty();
    heard(&mut s);
    v.handle(&mut s.voice, &mut s.audio, VoiceCmd::ListDevices);
    assert!(!is_hushed(&s));
}

#[test]
fn what_is_captured_is_handed_on() {
    let mut v = VoiceService::new();
    let mut s = AppState::empty();
    v.handle(&mut s.voice, &mut s.audio, connect("u"));
    v.opened(&mut s);
    let target = ShareTarget::Window(7);
    let cmd = VoiceCmd::SetSystemAudio { enabled: true, target: Some(target) };
    assert_eq!(
        v.handle(&mut s.voice, &mut s.audio, cmd),
        vec![VoiceAction::SystemAudio { enabled: true, target: Some(target) }]
    );
    let settings = CaptureSettings { width: 1280, height: 720, fps: 60, max_bitrate: 6_000_000 };
    let cmd = VoiceCmd::SetScreenVideo { room: None, target, settings };
    assert_eq!(
        v.handle(&mut s.voice, &mut s.audio, cmd),
        vec![VoiceAction::ScreenVideo { room: None, target, settings }]
    );
}

#[test]
fn the_room_of_screens_is_joined_and_left() {
    let mut s = AppState::empty();
    screen_audio_joined(&mut s, Ok(()));
    assert!(s.audio.screen_audio_joined && s.error_toast.is_none());
    apply_stream_audio(&mut s.audio, StreamAudio::Present("a".into()));
    take_up_screen_audio(&mut s, ScreenAudioPlan::Keep);
    assert!(s.audio.screen_audio_joined && s.audio.stream_has_audio.contains("a"));
    take_up_screen_audio(&mut s, ScreenAudioPlan::Join { leave_first: true });
    assert!(!s.audio.screen_audio_joined && !s.audio.stream_has_audio.contains("a"));
    screen_audio_joined(&mut s, Err("refused".into()));
    assert!(!s.audio.screen_audio_joined);
    assert_eq!(
        s.error_toast.take().as_deref(),
        Some(
            "Stream sound is playing through the app window instead of your chosen output device: refused"
        )
    );
    take_up_screen_audio(&mut s, ScreenAudioPlan::NoIdentity { leave_first: false });
    assert_eq!(
        s.error_toast.as_deref(),
        Some("Couldn't join the stream's audio: this session has no identity yet.")
    );
    system_audio_died(&mut s, "gone");
    assert_eq!(
        s.error_toast.as_deref(),
        Some(
            "This computer's sound stopped being shared: gone. The screen is still being shared — restart the share to send sound again."
        )
    );
}

#[test]
fn a_level_may_be_below_zero() {
    let mut gate = GateState::default();
    assert_eq!(gate.step(-50, 21), GateAction::Drop);
    assert_eq!(gate.envelope, 0);
    gate.envelope = -100;
    assert_eq!(gate.step(-200, 21), GateAction::Drop);
    assert_eq!(gate.envelope, -100 * GATE_ENVELOPE_DECAY_PCT / 100);
    assert_eq!(gate.step(-1_000, -2_000), GateAction::RampIn);
}

#[test]
fn a_muted_frame_is_dropped_and_forgotten() {
    let mut gate = GateState::default();
    assert_eq!(judge_frame(&mut gate, false, 900, None, 21), GateAction::RampIn);
    assert_eq!(judge_frame(&mut gate, false, 0, Some(900), 21), GateAction::Pass);
    assert_eq!(judge_frame(&mut gate, true, 900, Some(900), 21), GateAction::Drop);
    assert_eq!((gate.hangover, gate.envelope, gate.was_open), (0, 0, false));
    assert_eq!(judge_frame(&mut gate, false, 900, Some(3), 21), GateAction::Drop);
}
