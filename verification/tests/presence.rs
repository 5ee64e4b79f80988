use discordia::presence::detect::{Detector, Process};
use discordia::presence::ipc::{
    activity_from_frame, activity_in, normalise_timestamp, on_frame, parse_header, socket_names,
    write_frame, MAX_FRAME, OP_CLOSE, OP_FRAME, OP_HANDSHAKE, OP_PING, OP_PONG, SLOTS,
};
use discordia::presence::{announcement, service_step, Config, Merge, Source};
use discordia::protocol::{Activity, ActivityKind, ClientMessage};

fn named(name: &str) -> Option<Activity> {
    Some(Activity {
        kind: ActivityKind::Playing,
        name: name.to_string(),
        details: None,
        state: None,
        started_ms: None,
    })
}

fn frame_of(args: &str) -> Option<Activity> {
    activity_in(format!(r#"{{"args":{args}}}"#).as_bytes())
}

#[test]
fn a_seconds_timestamp_is_scaled_and_a_millis_one_is_left_alone() {
    assert_eq!(normalise_timestamp(1_700_000_000), 1_700_000_000_000);
    assert_eq!(normalise_timestamp(1_700_000_000_000), 1_700_000_000_000);
}

#[test]
fn a_frame_without_a_nameable_field_yields_nothing() {
    assert!(frame_of(r#"{ "activity": {} }"#).is_none());
    assert!(frame_of(r#"{ "activity": null }"#).is_none());
    assert!(frame_of("{}").is_none());
}

#[test]
fn details_stand_in_for_a_name_the_dashboard_would_have_held() {
    let a = frame_of(r#"{ "activity": { "details": "Seablock", "state": "hour 400" } }"#).unwrap();
    assert_eq!(a.name, "Seablock");
    assert_eq!(a.details, None);
    assert_eq!(a.state.as_deref(), Some("hour 400"));
}

#[test]
fn a_named_activity_keeps_all_three_lines_and_its_clock() {
    let a = frame_of(
        r#"{ "activity": {
            "name": "Factorio",
            "details": "Seablock",
            "state": "In a Match",
            "timestamps": { "start": 1700000000 }
        } }"#,
    )
    .unwrap();
    assert_eq!(a.name, "Factorio");
    assert_eq!(a.details.as_deref(), Some("Seablock"));
    assert_eq!(a.state.as_deref(), Some("In a Match"));
    assert_eq!(a.started_ms, Some(1_700_000_000_000));
}

#[test]
fn the_two_socket_families_never_collide() {
    let ours = socket_names(false);
    let theirs = socket_names(true);
    assert_eq!(ours.len(), SLOTS as usize);
    assert!(ours.iter().all(|n| !theirs.contains(n)));
    assert_eq!(theirs[0], "discord-ipc-0");
}

#[test]
fn blanks_are_no_name() {
    let a = activity_from_frame(Some("  ".into()), None, Some("x".into()), None).unwrap();
    assert_eq!(a.name, "x");
    assert_eq!(a.state, None);
    assert_eq!(a.started_ms, None);
}

#[test]
fn frames_are_a_number_a_length_and_text() {
    let frame = write_frame(OP_FRAME, "{}");
    assert_eq!(frame, [1, 0, 0, 0, 2, 0, 0, 0, b'{', b'}']);
    let head: [u8; 8] = frame[..8].try_into().unwrap();
    assert_eq!(parse_header(&head), Some((OP_FRAME, 2)));
    let long = write_frame(OP_FRAME, &"x".repeat(MAX_FRAME as usize + 1));
    assert_eq!(parse_header(&long[..8].try_into().unwrap()), None);
}

#[test]
fn a_game_is_greeted_answered_and_heard() {
    let set = br#"{"cmd":"SET_ACTIVITY","nonce":"n1","args":{"activity":{"name":"Factorio"}}}"#;
    let early = on_frame(false, OP_FRAME, set);
    assert!(early.reply.is_none() && early.update.is_none(), "not before the handshake");

    let hello = on_frame(false, OP_HANDSHAKE, b"{}");
    assert!(hello.handshaken);
    let (op, text) = hello.reply.unwrap();
    assert_eq!(op, OP_FRAME);
    let ready: serde_json::Value = serde_json::from_str(&text).unwrap();
    assert_eq!(ready["cmd"].as_str(), Some("DISPATCH"));
    assert_eq!(ready["evt"].as_str(), Some("READY"));
    assert_eq!(ready["data"]["v"].as_i64(), Some(1));

    let heard = on_frame(true, OP_FRAME, set);
    assert_eq!(heard.update.unwrap().activity.unwrap().name, "Factorio");
    assert_eq!(
        heard.reply.unwrap(),
        (
            OP_FRAME,
            r#"{"cmd":"SET_ACTIVITY","data":null,"evt":null,"nonce":"n1"}"#.to_string()
        )
    );

    let other = on_frame(true, OP_FRAME, br#"{"cmd":"SUBSCRIBE"}"#);
    assert!(other.update.is_none());
    assert!(other.reply.unwrap().1.ends_with("\"nonce\":null}"));

    let pong = on_frame(true, OP_PING, br#"{ "a" : 1 }"#);
    assert_eq!(pong.reply.unwrap(), (OP_PONG, r#"{"a":1}"#.to_string()));
    assert_eq!(on_frame(true, OP_PING, b"junk").reply.unwrap().1, "null");
    assert!(on_frame(true, OP_CLOSE, b"{}").close);
    assert!(!on_frame(true, 9, b"{}").close);
}

#[test]
fn a_game_that_speaks_for_itself_outranks_one_we_spotted() {
    let mut m = Merge::default();
    m.apply(Source::Detected, named("Factorio"));
    assert_eq!(m.current().map(|a| a.name.as_str()), Some("Factorio"));

    m.apply(Source::Rpc, named("Seablock"));
    assert_eq!(m.current().map(|a| a.name.as_str()), Some("Seablock"));
}

#[test]
fn losing_the_socket_falls_back_to_the_process_we_can_still_see() {
    let mut m = Merge::default();
    m.apply(Source::Detected, named("Factorio"));
    m.apply(Source::Rpc, named("Seablock"));

    m.apply(Source::Rpc, None);
    assert_eq!(m.current().map(|a| a.name.as_str()), Some("Factorio"));

    m.apply(Source::Detected, None);
    assert!(m.current().is_none());
}

#[test]
fn only_news_is_announced_and_only_when_shared() {
    let mut m = Merge::default();
    assert!(announcement(true, &m, &None).is_none());
    m.apply(Source::Detected, named("Factorio"));
    assert_eq!(
        announcement(true, &m, &None),
        Some(ClientMessage::SetActivity { activity: named("Factorio") })
    );
    assert!(announcement(true, &m, &named("Factorio")).is_none());
    assert!(announcement(false, &m, &None).is_none());
    assert_eq!(
        announcement(false, &m, &named("Factorio")),
        Some(ClientMessage::SetActivity { activity: None })
    );
}

#[test]
fn nothing_runs_that_was_not_asked_for() {
    let cfg = |share, detect| Config { share, detect, discord_socket: false };
    let step = service_step(cfg(false, true), false, false);
    assert!(!step.start_scan && !step.stop_scan && !step.listen);
    let step = service_step(cfg(true, true), false, false);
    assert!(step.start_scan && step.listen);
    let step = service_step(cfg(true, false), true, true);
    assert!(step.stop_scan && !step.listen);
}

fn process(started: u64, exe: Option<&str>, name: &str) -> Process {
    Process { started, exe: exe.map(str::to_string), name: name.to_string() }
}

#[test]
fn the_program_that_ran_longest_is_played() {
    let d = Detector::new(&Vec::new());
    let running = vec![
        process(50, None, "bash"),
        process(30, Some("Factorio.exe"), "x"),
        process(20, None, "CELESTE"),
        process(20, None, "balatro"),
    ];
    let a = d.scan(&running).expect("a game");
    assert_eq!(a.name, "Celeste");
    assert_eq!(a.started_ms, Some(20_000));
    assert!(d.scan(&vec![process(1, None, "bash")]).is_none());
}

#[test]
fn what_a_person_added_wins() {
    let extra = vec![
        (" MyGame ".to_string(), " My Game ".to_string()),
        ("factorio".to_string(), "Not Factorio".to_string()),
        ("  ".to_string(), "Nothing".to_string()),
        ("other".to_string(), " ".to_string()),
    ];
    let d = Detector::new(&extra);
    assert_eq!(d.lookup(&process(1, Some("mygame"), "x")), Some("My Game"));
    assert_eq!(d.lookup(&process(1, None, "factorio")), Some("Not Factorio"));
    assert_eq!(d.lookup(&process(1, Some("unknown"), "dota2")), Some("Dota 2"));
    assert_eq!(d.lookup(&process(1, None, "other")), None);
    assert_eq!(d.lookup(&process(1, Some(""), "")), None);
}
