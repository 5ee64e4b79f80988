use discordia::features::roles::{locked, owner_only, RoleForm};
use discordia::features::screenshare::{
    attach_js, choose_source, close_screen_picker, complaint, desired_levels, detach_js,
    grouped_sources, js_str, open_screen_picker, set_stream_volume, size_label, sources_found,
    stop_sharing, stop_watching, stream_volume_from, stream_volume_js, toggle_stream_mute,
    watched_level, native_audio_mode,
    native_settings, native_stream_js, note_capture, on_share_message, preset_caption, quality_preset, room_js, screen_commands,
    screen_wants, share_js, share_label, share_message, sharers_of, stream_gain_of,
    stream_sink_js, CaptureProbe, NativeScope, ShareMessage,
};
use discordia::features::servers::{short_label, tile_letter, SessionMode};
use discordia::features::settings::{
    atten_lim_from, bitrate_caption, bitrate_from, camera_caption, cameras_unnamed, gate_caption,
    level_caption, meter_pct_from, mic_volume_from, picked_camera, picked_device,
    raw_level_caption, restore_audio, sfx_volume_from, shows_raw_level, tab_labels, Camera,
    SavedAudio, SettingsTab,
};
use discordia::features::sounds::{
    call_peers, comings_and_goings, phase_sound, sfx, should_notify, status_sound, switch_sound,
    watch_sound, Sound,
};
use discordia::features::topology::{
    database_line, diagram_svg, ellipsize, esc, own_label, session_legs, Leg, Seal, SessionPaths,
};
use discordia::features::wallet::{
    activity_row, begin_send, finish_send, format_unix_relative, truncate_middle, Account, Status,
};
use discordia::features::workspace::{
    answer, count_online_others, default_layout, encryption_badge, expire_toast, guilds_word,
    leave, listing_note, people_line, prune_typing, reach_badge, speaking_notice, transport_badge,
    voice_label, Leaving,
};
use discordia::host::{HostInfo, Reachability};
use discordia::protocol::{
    CaptureSettings, ClientMessage, Id, Member, Permission, Role, ScreenSource, ShareTarget, User, VoiceCmd,
    VoiceState,
};
use discordia::state::{AppState, ConnectionStatus, Transport, VoicePhase};
use discordia::table::{IdTable, TextTable};

fn texts(items: &[&str]) -> Vec<String> {
    items.iter().map(|s| s.to_string()).collect()
}

// The page.

#[test]
fn a_quote_in_a_server_string_cannot_close_the_literal() {
    for hostile in [
        "ws://x');alert(1);//",
        "ws://x\");alert(1);//",
        "ws://x\\\");alert(1);//",
    ] {
        let quoted = js_str(hostile);
        assert!(
            quoted.starts_with('"') && quoted.ends_with('"'),
            "one complete JS string literal: {quoted}"
        );
        let inner = &quoted[1..quoted.len() - 1];
        let mut chars = inner.chars().peekable();
        while let Some(c) = chars.next() {
            if c == '\\' {
                chars.next();
            } else {
                assert_ne!(c, '"', "a bare quote escaped the literal: {quoted}");
            }
        }
        let back: String = serde_json::from_str(&quoted).expect("valid literal");
        assert_eq!(back, hostile);
    }
}

#[test]
fn escaping_preserves_the_value() {
    for raw in [
        "wss://sfu.example.com:7880",
        "a'b",
        "a\"b",
        "back\\slash",
        "new\nline",
        "</script>",
        "🙂",
    ] {
        let parsed: String =
            serde_json::from_str(&js_str(raw)).expect("still valid JSON/JS string");
        assert_eq!(parsed, raw, "value survived escaping unchanged");
    }
}

#[test]
fn the_call_sites_emit_quoted_arguments() {
    let js = attach_js("page;", "pk#video", "screen-tile", "screen");
    assert!(
        js.contains(r#"attach("pk#video","screen-tile","screen")"#),
        "attach passes JSON-quoted arguments: {}",
        js.lines().last().unwrap_or_default()
    );

    let js = share_js("page;", true, "high", true, NativeScope::Never);
    assert!(
        !js.contains("hint:'"),
        "no hand-built single-quoted literals remain in share_js"
    );
}

#[test]
fn the_page_comes_before_the_call() {
    assert!(detach_js("page;", "tile").starts_with("page;"));
    assert!(stream_sink_js("page;", Some("dev")).contains("\"dev\""));
    let room = Some(("wss://sfu".to_string(), "tok".to_string()));
    assert!(room_js("page;", &room, Some("key"), true).contains("\"wss://sfu\""));
    assert_ne!(
        share_js("", true, "smooth", true, NativeScope::Never),
        share_js("", false, "smooth", true, NativeScope::Never)
    );
    assert_eq!(native_audio_mode(NativeScope::MonitorOnly), "monitor");
}

#[test]
fn presets_are_what_they_say() {
    let p = quality_preset("smooth");
    assert_eq!((p.width, p.height, p.fps), (1280, 720, 60));
    let p = quality_preset("anything");
    assert_eq!((p.width, p.height, p.fps, p.bitrate), (1920, 1080, 30, 9_000_000));
    assert_eq!(native_settings("ultra").width, 2560);
    assert_eq!(preset_caption("crisp").map(|c| c.0), Some("Crisp — 1080p15"));
    assert_eq!(preset_caption("anything"), None);
}

fn in_call(who: &str, channel: Id, sharing: bool) -> VoiceState {
    VoiceState {
        guild_id: Id { value: 9 },
        user_pubkey: who.to_string(),
        channel_id: Some(channel),
        muted: false,
        deafened: false,
        speaking: false,
        screen_sharing: sharing,
    }
}

const CHANNEL: Id = Id { value: 1 };

fn sharing_state() -> AppState {
    let mut s = AppState::empty();
    s.self_user = Some(User { pubkey: "me".into(), username: "me".into() });
    s.voice.channel_id = Some(CHANNEL);
    s
}

#[test]
fn a_share_begins_and_ends_with_a_notice() {
    let mut s = sharing_state();
    let out = on_share_message(&mut s, ShareMessage::Started { native_audio: false });
    assert_eq!(
        out,
        Some(ClientMessage::SetScreenShare { channel_id: CHANNEL, sharing: true })
    );
    assert!(s.screen_sharing);
    let out = on_share_message(&mut s, ShareMessage::Ended);
    assert_eq!(
        out,
        Some(ClientMessage::SetScreenShare { channel_id: CHANNEL, sharing: false })
    );
    assert!(!s.screen_sharing);
    assert_eq!(on_share_message(&mut s, ShareMessage::Other), None);
}

#[test]
fn messages_of_the_page_are_read() {
    assert!(matches!(share_message("not json"), ShareMessage::Other));
    assert!(matches!(share_message(r#"{"kind":"unheard"}"#), ShareMessage::Other));
    assert!(complaint(&ShareMessage::EchoRisk).is_some());
    assert!(complaint(&ShareMessage::Ended).is_none());
}

#[test]
fn a_source_that_is_chosen_is_shared() {
    let mut s = sharing_state();
    let out = choose_source(&mut s, ShareTarget::Display(3), true);
    assert!(s.screen_share_target.is_some());
    assert!(matches!(out, None | Some(ClientMessage::SetScreenShare { .. })));
    assert_ne!(
        share_label(Some(ShareTarget::Display(3))),
        share_label(Some(ShareTarget::Window(3)))
    );
    let wants = screen_wants(&s, true);
    assert!(screen_commands(&wants, &Some(screen_wants(&s, true)), "smooth").is_empty(), "nothing changed");
}

#[test]
fn streams_have_levels_of_their_own() {
    let mut s = sharing_state();
    s.stream_volumes.insert("a".into(), 40);
    assert_eq!(stream_gain_of(&s, "a"), 40);
    s.stream_muted.insert("a".into(), true);
    assert_eq!(stream_gain_of(&s, "a"), 0);
    assert_eq!(stream_gain_of(&s, "b"), 100);
    s.screen_shares.insert(CHANNEL, texts(&["a", "me"]));
    assert!(sharers_of(&s).contains(&"a".to_string()));
    assert!(desired_levels(&s).iter().all(|(_, level)| *level <= 100));
}

// The diagram.

fn leg(what: &'static str, node: &'static str, seal: Seal, db: bool) -> Leg {
    Leg {
        what,
        node,
        where_to: "example.test:443".into(),
        seal,
        note: String::new(),
        holds_db: db,
        travels: true,
        via: None,
    }
}

#[test]
fn a_hop_is_drawn_on_the_arrow_it_actually_sits_on() {
    let mut relayed = leg("channels", "Server", Seal::EndToEnd, false);
    relayed.via = Some("via relay".into());
    let with_hop = diagram_svg(&vec![relayed], "you");
    assert!(with_hop.contains("via relay"));
    assert_eq!(with_hop.matches("<rect").count(), 3);

    let direct = diagram_svg(&vec![leg("channels", "Server", Seal::EndToEnd, false)], "you");
    assert_eq!(direct.matches("<rect").count(), 2);
}

#[test]
fn a_leg_that_stays_put_gets_a_caption_rather_than_an_arrow() {
    let mut key = leg("your key", "Stays here", Seal::Local, false);
    key.travels = false;
    let svg = diagram_svg(&vec![leg("a", "A", Seal::EndToEnd, false), key], "you");
    assert_eq!(svg.matches("<rect").count(), 2);
    assert_eq!(svg.matches("marker-end").count(), 1);
    assert!(svg.contains("your key never leaves"));
}

#[test]
fn every_leg_gets_a_box_and_an_arrow() {
    let legs = vec![
        leg("channels", "Server", Seal::EndToEnd, true),
        leg("dms", "Nostr relays", Seal::EndToEnd, false),
        leg("key", "Stays here", Seal::Local, false),
    ];
    let svg = diagram_svg(&legs, "this client");
    assert_eq!(svg.matches("<rect").count(), 4);
    assert_eq!(svg.matches("marker-end").count(), 3);
    assert!(svg.ends_with("</svg>"));
}

#[test]
fn a_readable_leg_is_dashed_as_well_as_coloured() {
    let e2e = diagram_svg(&vec![leg("a", "A", Seal::EndToEnd, false)], "you");
    assert!(!e2e.contains("stroke-dasharray"));

    let transit = diagram_svg(&vec![leg("a", "A", Seal::InTransit, false)], "you");
    assert!(transit.contains("stroke-dasharray"));
    assert!(transit.contains("var(--warn)"));
}

#[test]
fn the_cylinder_is_drawn_only_beside_whoever_holds_the_rows() {
    let with = diagram_svg(&vec![leg("a", "A", Seal::Local, true)], "you");
    let without = diagram_svg(&vec![leg("a", "A", Seal::Local, false)], "you");
    assert!(with.contains("<ellipse"));
    assert!(!without.contains("<ellipse"));
}

#[test]
fn a_hostile_hostname_cannot_close_the_tag_it_lands_in() {
    let mut l = leg("a", "A", Seal::Local, false);
    l.where_to = "</text><script>x</script>".into();
    let svg = diagram_svg(&vec![l], "you");
    assert!(!svg.contains("<script>"));
    assert!(svg.contains("&lt;/text&gt;"));
}

#[test]
fn a_long_address_loses_its_middle_and_keeps_its_port() {
    let long = "a-very-long-hostname-indeed.example.test:8443";
    let cut = ellipsize(long, 30);
    assert!(cut.chars().count() <= 30);
    assert!(cut.ends_with("8443"), "got {cut}");
    assert!(cut.starts_with("a-very"));
}

#[test]
fn a_short_address_is_left_exactly_as_it_is() {
    assert_eq!(ellipsize("host:443", 30), "host:443");
}

fn paths(transport: Transport) -> SessionPaths {
    SessionPaths {
        self_hosting: false,
        voice_bundled: false,
        listed_public: false,
        transport,
        origin: "chat.example:443".into(),
        rendezvous: None,
        relays: texts(&["wss://r.example"]),
        in_voice: false,
        voice_sealed: false,
    }
}

#[test]
fn the_gateway_leg_says_who_can_read_it() {
    let proxied = session_legs(&paths(Transport::Proxied));
    assert!(proxied[0].seal == Seal::InTransit);
    let direct = session_legs(&paths(Transport::Quic));
    assert!(direct[0].seal != Seal::InTransit);
    assert!(session_legs(&paths(Transport::QuicRelayed)).iter().any(|l| l.via.is_some()));
    assert_eq!(esc("<a & 'b\">"), "&lt;a &amp; 'b\"&gt;");
    assert_ne!(database_line(true), database_line(false));
    assert_ne!(own_label(true), own_label(false));
    assert_ne!(Seal::EndToEnd.chip(), Seal::InTransit.chip());
}

// Roles.

#[test]
fn a_role_is_edited_and_sent_once() {
    let mut form = RoleForm::new();
    assert_eq!(form.submit(Id { value: 3 }), None, "a role needs a name");
    form.name = "  Mods ".into();
    form.toggle(Permission::ManageRoles);
    form.toggle(Permission::Other(1));
    form.toggle(Permission::Other(1));
    match form.submit(Id { value: 3 }) {
        Some(ClientMessage::CreateRole { guild_id, name, permissions, .. }) => {
            assert_eq!(guild_id, Id { value: 3 });
            assert_eq!(name, "Mods");
            assert_eq!(permissions, vec![Permission::ManageRoles]);
        }
        other => panic!("unexpected {other:?}"),
    }
    form.edit(Role {
        id: Id { value: 7 },
        guild_id: Id { value: 3 },
        name: "Old".into(),
        color: None,
        permissions: vec![],
    });
    assert!(matches!(
        form.submit(Id { value: 3 }),
        Some(ClientMessage::UpdateRole { role_id, .. }) if role_id == Id { value: 7 }
    ));
    assert!(owner_only(Permission::ManageGuild));
    assert!(locked(Permission::ManageGuild, false) && !locked(Permission::ManageGuild, true));
    assert_ne!(RoleForm::new().captions().0, "");
}

// Sounds.

#[test]
fn changes_have_their_sounds() {
    assert_eq!(phase_sound(VoicePhase::Connecting, VoicePhase::Connected), Some(Sound::Connect));
    assert_eq!(phase_sound(VoicePhase::Connected, VoicePhase::Idle), Some(Sound::Disconnect));
    assert_eq!(phase_sound(VoicePhase::Connecting, VoicePhase::Idle), None);
    assert_eq!(watch_sound(None, Some("a")), Some(Sound::WatchStart));
    assert_eq!(watch_sound(Some("a"), None), Some(Sound::WatchStop));
    assert_eq!(watch_sound(Some("a"), Some("a")), None);
    assert_eq!(
        status_sound(ConnectionStatus::Ready, ConnectionStatus::Disconnected),
        Some(Sound::ServerDisconnect)
    );
    assert_eq!(switch_sound(false, true, Sound::Mute, Sound::Unmute), Some(Sound::Mute));
    assert_eq!(switch_sound(true, true, Sound::Mute, Sound::Unmute), None);
    assert_eq!(
        comings_and_goings(&texts(&["a"]), &texts(&["a", "b"]), true),
        (true, false)
    );
    assert_eq!(comings_and_goings(&texts(&["a"]), &texts(&["b"]), false), (false, false));
    assert!(should_notify(2, 1) && !should_notify(0, 1) && !should_notify(1, 1));
    let mut s = sharing_state();
    s.voice_states.push(in_call("me", CHANNEL, false));
    s.voice_states.push(in_call("you", CHANNEL, true));
    assert_eq!(call_peers(&s), texts(&["you"]));
    assert!(sfx("bank;", Sound::Notify).starts_with("bank;"));
}

// Settings.

#[test]
fn settings_are_read_within_their_bounds() {
    assert_eq!(picked_device(""), None);
    assert_eq!(picked_device("mic").as_deref(), Some("mic"));
    assert!(sfx_volume_from("250") <= 255);
    assert_eq!(mic_volume_from("150"), 150);
    assert_eq!(meter_pct_from("40"), 40);
    assert_eq!(atten_lim_from("30"), 30);
    assert_eq!(bitrate_from("24"), 24);
    assert_eq!(mic_volume_from("x"), mic_volume_from("100"));
    assert_ne!(tab_labels(SettingsTab::Audio), tab_labels(SettingsTab::Video));
    assert!(shows_raw_level(true, false, 1, 2) && !shows_raw_level(false, false, 1, 2));
    assert_eq!(raw_level_caption(false, false), "");
    assert_eq!(gate_caption(VoicePhase::Connected, false, true), Some("Transmitting"));
    assert_eq!(gate_caption(VoicePhase::Idle, false, true), None);
    assert_eq!(level_caption(VoicePhase::Idle, "-20 dB"), "join voice");
    assert_ne!(bitrate_caption(VoicePhase::Idle), bitrate_caption(VoicePhase::Connected));
}

#[test]
fn cameras_are_named_or_numbered() {
    let named = Camera { id: "1".into(), label: "Front".into() };
    let bare = Camera { id: "2".into(), label: String::new() };
    assert_eq!(camera_caption(&named, 0), "Front");
    assert_eq!(camera_caption(&bare, 1), "Camera 2");
    let both = vec![bare.clone(), named];
    assert_eq!(picked_camera("1", &both), (Some("1".into()), Some("Front".into())));
    assert_eq!(picked_camera("", &both), (None, None));
    assert!(!cameras_unnamed(&both));
    assert!(cameras_unnamed(&vec![bare]));
    assert!(!cameras_unnamed(&Vec::new()));
}

#[test]
fn saved_sound_is_brought_within_bounds() {
    let mut s = AppState::empty();
    let saved = SavedAudio {
        mic_sensitivity: 5000,
        mic_volume: 300,
        auto_gain_control: true,
        noise_cancellation: false,
        bypass_system_processing: true,
        denoise_atten_lim_db: 1,
        voice_bitrate_kbps: 64,
        selected_input_device: Some("mic".into()),
        selected_output_device: None,
    };
    restore_audio(&mut s.audio, saved, false);
    assert_eq!(s.audio.mic_sensitivity, 1000);
    assert_eq!(s.audio.mic_volume, 200);
    assert!(!s.audio.bypass_system_processing, "this system cannot");
    assert_eq!(s.audio.denoise_atten_lim_db, 6);
    assert_eq!(s.audio.selected_input_device.as_deref(), Some("mic"));
}

// Wallet.

#[test]
fn times_are_told_as_ages() {
    assert_eq!(format_unix_relative(100, 159), "59s ago");
    assert_eq!(format_unix_relative(0, 60), "1m ago");
    assert_eq!(format_unix_relative(0, 7200), "2h ago");
    assert_eq!(format_unix_relative(0, 86_400 * 3), "3d ago");
    assert_eq!(format_unix_relative(200, 100), "200", "a time to come is left as it is");
    assert_eq!(activity_row(true, None, 5), ("failed", "pending".to_string()));
    assert_eq!(activity_row(false, Some(0), 5), ("ok", "5s ago".to_string()));
    assert_eq!(truncate_middle("abcdefghij", 3, 2), "abc…ij");
    assert_eq!(truncate_middle("abc", 3, 2), "abc");
}

#[test]
fn sending_starts_and_finishes() {
    assert!(matches!(begin_send(false, None), Status::Failed(e) if e == "amount must be a number"));
    assert!(matches!(begin_send(true, None), Status::Failed(e) if e == "amount must be positive"));
    assert!(matches!(begin_send(true, Some(1)), Status::Sending));
    assert!(matches!(
        finish_send(Ok("sig".into()), "url".into()),
        Status::Sent { signature, explorer_url } if signature == "sig" && explorer_url == "url"
    ));
    assert!(matches!(finish_send(Err("no".into()), "url".into()), Status::Failed(e) if e == "no"));
}

// Servers.

#[test]
fn servers_are_labelled() {
    let remote = |url: &str| SessionMode::Remote { server_url: url.into() };
    assert_eq!(short_label(&remote("ws://a:1")), "a:1");
    assert_eq!(short_label(&remote("wss://a")), "a");
    let code = SessionMode::ByCode { rendezvous_url: "r".into(), code: "xyz".into() };
    assert_eq!(short_label(&code), "xyz");
    assert_eq!(tile_letter("abc"), 'A');
    assert_eq!(tile_letter(""), '?');
    assert_eq!(tile_letter("ñ"), 'ñ');
}

// The workspace.

#[test]
fn leaving_is_asked_about_only_by_a_host() {
    assert!(matches!(leave(None, true, String::new()), Some(Leaving::Confirm(_))));
    assert!(matches!(leave(None, false, String::new()), Some(Leaving::Running(_))));
    assert!(matches!(
        leave(Some(Leaving::Confirm(String::new())), true, "lost".into()),
        Some(Leaving::Running(r)) if r == "lost"
    ));
    assert!(matches!(
        leave(Some(Leaving::Running("first".into())), true, "lost".into()),
        Some(Leaving::Running(r)) if r == "first"
    ));
    assert!(answer(false).is_none());
    assert!(answer(true).is_some());
}

#[test]
fn people_who_stopped_typing_are_dropped() {
    let mut typing = IdTable::new();
    let mut who = TextTable::new();
    who.insert("a".to_string(), ("Ana".to_string(), 1_000u64));
    who.insert("b".to_string(), ("Bo".to_string(), 100_000u64));
    typing.insert(CHANNEL, who);
    let now = prune_typing(&typing, 100_001);
    let left = now.get(CHANNEL).expect("somebody types");
    assert!(left.contains("b") && !left.contains("a"));
    assert!(!prune_typing(&typing, 1_000_000).contains(CHANNEL));
}

#[test]
fn the_others_are_counted() {
    let mut s = sharing_state();
    let member = |who: &str, guild: u128, online: bool| Member {
        guild_id: Id { value: guild },
        user: User { pubkey: who.into(), username: who.into() },
        online,
    };
    s.members = vec![
        member("me", 1, true),
        member("a", 1, true),
        member("a", 2, true),
        member("b", 1, false),
    ];
    assert_eq!(count_online_others(&s), 1);
    assert_eq!(people_line(0), "Nobody else is connected right now.");
    assert_eq!(people_line(2), "2 other people are connected right now, and will be dropped.");
    assert_eq!(guilds_word(1), "guild");
    assert_eq!(guilds_word(0), "guilds");
}

#[test]
fn badges_and_toasts() {
    assert!(encryption_badge(false, true, true).is_none());
    assert_eq!(encryption_badge(true, true, false).map(|b| b.label), Some("media encrypted"));
    assert_eq!(encryption_badge(true, false, true).map(|b| b.label), Some("media undecryptable"));
    assert_eq!(transport_badge(false, Transport::Quic).map(|b| b.label), Some("direct"));
    assert!(transport_badge(true, Transport::Quic).is_none());
    assert_eq!(voice_label("", true), "voice unavailable");
    assert_eq!(voice_label("u", false), "voice via rendezvous");
    let mut s = AppState::empty();
    s.error_toast = Some("new".into());
    expire_toast(&mut s, "old");
    assert!(s.error_toast.is_some());
    expire_toast(&mut s, "new");
    assert!(s.error_toast.is_none());
    assert_eq!(speaking_notice(false, true), Some(ClientMessage::SetSpeaking { speaking: true }));
    assert_eq!(speaking_notice(true, true), None);
    assert!(!default_layout().is_empty());
}

#[test]
fn a_host_is_told_who_reaches_it() {
    let direct = |media| Reachability::Direct { endpoint: "e".into(), method: "NAT-PMP", media };
    assert_eq!(reach_badge(&direct(true)).0, "● reachable directly");
    assert_eq!(reach_badge(&direct(false)).0, "● reachable directly (chat only)");
    assert!(reach_badge(&direct(true)).1.starts_with("NAT-PMP mapped this machine's ports."));
    let lan = Reachability::LanOnly { reason: "No router.".into() };
    assert_eq!(
        reach_badge(&lan).1,
        "No router. Friends elsewhere can still join by code — the rendezvous relays them."
    );
    assert_eq!(reach_badge(&Reachability::LoopbackOnly).0, "● local only");
    let mut info = HostInfo {
        gateway_addr: "a".into(),
        livekit_url: String::new(),
        lan_url: String::new(),
        local_url: String::new(),
        voice_bundled: false,
        shortcode: Some("abc".into()),
        publish_error: None,
        listed_public: false,
        reachability: Reachability::LoopbackOnly,
    };
    assert_eq!(listing_note(&info).as_deref(), Some("unlisted"));
    info.listed_public = true;
    assert_eq!(listing_note(&info), None);
    info.publish_error = Some("no".into());
    assert_eq!(listing_note(&info).as_deref(), Some("⚠ not published — no"));
}

#[test]
fn a_part_that_failed_does_not_hide_the_others() {
    let fresh: Account<u8, u8> = Account::loading();
    assert!(fresh.balance.is_none() && fresh.tokens.is_empty());
    let a: Account<u8, u8> = Account::loaded(Ok(5), Err("no".into()), Ok(vec![1, 2]));
    assert_eq!(a.balance, Some(5));
    assert_eq!(a.tokens_error.as_deref(), Some("no"));
    assert!(a.tokens.is_empty());
    assert_eq!(a.history, vec![1, 2]);
    assert_eq!(a.history_error, None);
}

#[test]
fn the_voice_service_is_told_what_to_capture() {
    let mut s = sharing_state();
    choose_source(&mut s, ShareTarget::Window(5), true);
    let wants = screen_wants(&s, true);
    let told = screen_commands(&wants, &None, "smooth");
    assert_eq!(told.len(), 3);
    assert!(matches!(
        told[1],
        VoiceCmd::SetSystemAudio { target: Some(ShareTarget::Window(5)), .. }
    ));
    let smooth = CaptureSettings { width: 1280, height: 720, fps: 60, max_bitrate: 6_000_000 };
    assert!(matches!(
        &told[2],
        VoiceCmd::SetScreenVideo { target: ShareTarget::Window(5), settings, .. }
            if *settings == smooth
    ));
    let idle = screen_wants(&sharing_state(), true);
    assert!(matches!(
        screen_commands(&idle, &None, "crisp")[2],
        VoiceCmd::SetScreenVideo { target: ShareTarget::Display(0), .. }
    ));
}

#[test]
fn a_machine_that_cannot_capture_says_so() {
    for (native, probe, able) in [
        (true, CaptureProbe::Unable, true),
        (false, CaptureProbe::Able, true),
        (false, CaptureProbe::Unanswered, true),
        (false, CaptureProbe::Unable, false),
    ] {
        let mut s = AppState::empty();
        note_capture(&mut s, native, probe);
        assert_eq!(s.screen_capture_available, able);
        assert_eq!(s.error_toast.is_none(), able);
    }
    assert_eq!(
        native_stream_js("page;", true),
        "page;\nwindow.dxScreen.setNativeStreamAudio(true);"
    );
}

#[test]
fn a_pill_is_as_wide_as_its_label() {
    let mut hop = leg("channels", "Server", Seal::EndToEnd, false);
    for (label, width, left) in [
        ("abc", format!("{}", 3.0 * 4.6 + 8.0), None),
        ("abcde", format!("{}", 5.0 * 4.6 + 8.0), None),
        ("0123456789abcd", format!("{}", 14.0 * 4.6 + 8.0), Some("126.80000000000001")),
    ] {
        hop.via = Some(label.into());
        let svg = diagram_svg(&vec![hop.clone()], "you");
        assert!(svg.contains(&format!("width=\"{width}\"")), "{width} in {svg}");
        if let Some(left) = left {
            assert!(svg.contains(&format!("x=\"{left}\"")), "{left} in {svg}");
        }
    }
}

#[test]
fn sources_are_picked_from_two_groups() {
    let source = |id: u64, app: Option<&str>| ScreenSource {
        target: ShareTarget::Display(id),
        title: format!("{id}"),
        app: app.map(str::to_string),
        width: 0,
        height: 0,
    };
    let found = vec![source(1, Some("a")), source(2, None), source(3, Some("b")), source(4, None)];
    let mut s = sharing_state();
    sources_found(&mut s, Ok(found.clone()));
    assert!(s.screen_picker.is_none(), "a closed picker stays closed");
    open_screen_picker(&mut s);
    assert_eq!(s.screen_picker, Some(Ok(Vec::new())));
    sources_found(&mut s, Ok(found.clone()));
    assert_eq!(s.screen_picker, Some(Ok(found.clone())));
    choose_source(&mut s, ShareTarget::Display(2), false);
    assert!(s.screen_picker.is_none());
    open_screen_picker(&mut s);
    close_screen_picker(&mut s);
    assert!(s.screen_picker.is_none());
    let (surfaces, windows) = grouped_sources(found);
    assert_eq!(surfaces, vec![source(2, None), source(4, None)]);
    assert_eq!(windows, vec![source(1, Some("a")), source(3, Some("b"))]);
    assert_eq!(size_label(1920, 1080).as_deref(), Some("1920×1080"));
    assert_eq!(size_label(0, 1080), None);
}

#[test]
fn a_share_is_stopped_from_here() {
    let mut s = sharing_state();
    choose_source(&mut s, ShareTarget::Window(1), true);
    assert!(s.screen_native_audio);
    assert_eq!(
        stop_sharing(&mut s),
        Some(ClientMessage::SetScreenShare { channel_id: CHANNEL, sharing: false })
    );
    assert!(!s.screen_sharing && !s.screen_native_audio && s.screen_share_target.is_none());
    s.voice.channel_id = None;
    assert_eq!(stop_sharing(&mut s), None);
}

#[test]
fn the_watched_stream_is_as_loud_as_it_is_set() {
    assert_eq!(stream_volume_from("40"), 40);
    assert_eq!(stream_volume_from("201"), 200);
    assert_eq!(stream_volume_from("4294967296"), 100);
    assert_eq!(stream_volume_from("-1"), 100);
    assert_eq!(stream_volume_from("loud"), 100);

    let mut s = sharing_state();
    assert_eq!(watched_level(&s), 0, "nothing is watched");
    s.screen_viewing = Some("a".into());
    assert_eq!(watched_level(&s), 100);
    assert_eq!(set_stream_volume(&mut s, "a", "55"), 55);
    assert_eq!(watched_level(&s), 55);
    assert_eq!(toggle_stream_mute(&mut s, "a"), 0);
    assert_eq!(watched_level(&s), 0);
    assert_eq!(set_stream_volume(&mut s, "a", "60"), 0, "still muted");
    assert_eq!(toggle_stream_mute(&mut s, "a"), 60);
    s.voice.deafened = true;
    assert_eq!(watched_level(&s), 0);
    s.voice.deafened = false;
    assert_eq!(watched_level(&s), 60);
    stop_watching(&mut s);
    assert_eq!(s.screen_viewing, None);
    for level in 0..=200u32 {
        assert_eq!(
            stream_volume_js("page;", level),
            format!("page;\nwindow.dxScreen.setStreamVolume({});", level as f32 / 100.0)
        );
    }
}
