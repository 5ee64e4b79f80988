use discordia::host::{
    advertised_ip, bind_ip, doors, host_info, lan_url_for, livekit_display, local_ipv4, local_url,
    minted_elsewhere, reachability, starts_bundled, transport_advert, HostInfo, LocalIp,
    MappingOutcome, Reachability, Registration,
};
use discordia::identity::Identity;
use discordia::logging::{default_filter, log_crate_root, rolls_over};
use discordia::net::{
    dial_entry, dial_origin, local_dial, normalize_url, origin_at, parse_quic_share, parse_target, profile_to_send,
    resolve_media, resolve_url, solve_pow, ws_scheme, Dial, DiscoverEntry, MEDIA_RETRY_AFTER,
};
use discordia::portmap::{
    check_public, is_private, judge_media, judge_quic, mapped, mappings, no_router, socket, Ip,
    Mapped, Ports, Protocol,
};
use discordia::profile::LocalProfile;
use discordia::protocol::{ClientMessage, Id, Message, ServerMessage, User};
use discordia::quic::{
    coordination_from, dial_plan, endpoint_for, parse_endpoint_id, parse_transport_addr,
    secret_for, Coordination, GivenAddr, TransportAddr,
};
use discordia::rawmic::{
    after_wait, describe, explain, supported, Format, Sample, Waited, WaveFormat, SUBTYPE_PCM,
    WAVE_FORMAT_EXTENSIBLE, WAVE_FORMAT_IEEE_FLOAT, WAVE_FORMAT_PCM,
};
use discordia::session::{
    direct_transport, greet, identify, on_end, on_inbound, Greeting, Inbound, SessionStep,
    QUIC_HANDSHAKE_URL,
};
use discordia::state::{AppState, ConnectionStatus, Transport};
use discordia::table::TextTable;
use sha2::{Digest, Sha256};

fn share(addrs: &str) -> String {
    format!("quic://{}@{addrs}", "ab".repeat(32))
}

#[test]
fn the_quic_handshake_presents_a_loopback_host() {
    let url = url::Url::parse(QUIC_HANDSHAKE_URL).unwrap();
    assert_eq!(url.host_str(), Some("127.0.0.1"));
    assert_eq!(url.path(), "/gateway");
}

#[test]
fn a_share_string_dials_the_key_it_names() {
    match parse_target(&share("192.168.1.5:4433;https://relay.example/")) {
        Ok(Dial::Quic { key, addrs }) => {
            assert_eq!(key, "ab".repeat(32));
            assert_eq!(addrs, ["192.168.1.5:4433", "https://relay.example/"]);
        }
        _ => panic!("a share string must dial QUIC"),
    }
}

#[test]
fn plaintext_is_for_this_machine_only() {
    for local in ["ws://127.0.0.1:9000", "localhost:9000", "http://[::1]:9000/"] {
        match parse_target(local) {
            Ok(Dial::Socket { transport, origin, .. }) => {
                assert_eq!(transport, Transport::Loopback, "{local}");
                assert!(origin.ends_with(":9000"), "{origin}");
            }
            _ => panic!("{local} is loopback and must be allowed"),
        }
    }
    let refused = parse_target("ws://192.168.1.5:9000").err().expect("plaintext off loopback");
    assert!(refused.contains("in the clear"), "{refused}");
    assert!(parse_target("box.example:9000").is_err(), "a bare host means ws://");
}

#[test]
fn tls_through_a_proxy_is_allowed_anywhere() {
    match parse_target("wss://chat.example.com") {
        Ok(Dial::Socket { transport, origin, .. }) => {
            assert_eq!(transport, Transport::Proxied);
            assert_eq!(origin, "chat.example.com:443");
        }
        _ => panic!("wss:// must be allowed"),
    }
}

#[test]
fn other_schemes_and_broken_urls_are_refused() {
    assert!(parse_target("").is_err());
    assert!(parse_target("ws://").is_err());
    assert!(parse_quic_share("quic://@1.2.3.4:5").is_none());
    assert!(parse_quic_share("quic://abc").is_none());
    assert_eq!(
        parse_quic_share(" quic://k@a;;b; "),
        Some(("k".to_string(), vec!["a".to_string(), "b".to_string()]))
    );
}

#[test]
fn urls_are_put_into_shape() {
    assert_eq!(ws_scheme("http://a"), "ws://a");
    assert_eq!(ws_scheme("https://a"), "wss://a");
    assert_eq!(ws_scheme("wss://a"), "wss://a");
    assert_eq!(ws_scheme("a:1"), "ws://a:1");
    assert_eq!(normalize_url("localhost:9000").unwrap(), "ws://localhost:9000/gateway");
    assert_eq!(
        resolve_url(" https://rz.example/ ", " abc ").unwrap(),
        "https://rz.example/resolve/abc"
    );
    assert_eq!(resolve_url(" / ", "abc").unwrap_err(), "rendezvous URL required");
    match local_dial("ws://127.0.0.1:9123") {
        Ok(Dial::Socket { transport, origin, .. }) => {
            assert_eq!(transport, Transport::Loopback);
            assert_eq!(origin, "127.0.0.1:9123");
        }
        _ => panic!("the machine itself is a socket"),
    }
}

#[test]
fn a_directory_entry_is_dialled_with_its_relay() {
    let entry = |key: Option<&str>, relay: Option<&str>| {
        Some(DiscoverEntry {
            transport_key: key.map(str::to_string),
            transport_addrs: vec!["1.2.3.4:5".to_string()],
            relay_url: relay.map(str::to_string),
        })
    };
    match dial_entry(entry(Some("k"), Some("https://r")), "rz", "c") {
        Ok(Dial::Quic { key, addrs }) => {
            assert_eq!(key, "k");
            assert_eq!(addrs, ["1.2.3.4:5", "https://r"]);
        }
        _ => panic!("expected a key to dial"),
    }
    match dial_entry(entry(Some("k"), Some("1.2.3.4:5")), "rz", "c") {
        Ok(Dial::Quic { addrs, .. }) => assert_eq!(addrs, ["1.2.3.4:5"]),
        _ => panic!("expected a key to dial"),
    }
    assert_eq!(
        dial_entry(entry(None, None), "rz", "c").err().unwrap(),
        "that host offers no encrypted path; it needs a newer Discordia"
    );
    assert_eq!(
        dial_entry(None, "rz/", " c ").err().unwrap(),
        "no host answers to 'c' at rz"
    );
}

fn message(channel: Id, image: Option<String>) -> Message {
    Message {
        id: Id { value: 5 },
        channel_id: channel,
        author: User { pubkey: "a".repeat(64), username: "a".into() },
        content: String::new(),
        image,
        reactions: Vec::new(),
        reply_to: None,
        created_at: 1_700_000_000_000,
    }
}

#[test]
fn a_picture_the_server_never_answered_is_asked_for_again() {
    let mut s = AppState::empty();
    let channel = Id { value: 1 };
    let address = format!("{}.png", "b".repeat(64));
    s.messages.insert(channel, vec![message(channel, Some(format!("media:{address}")))]);
    let disk = TextTable::new();
    let now = 100_000;

    match resolve_media(&mut s, &disk, now).as_slice() {
        [ClientMessage::FetchEmoji { images }] => {
            assert_eq!(images, std::slice::from_ref(&address))
        }
        other => panic!("expected one fetch, got {other:?}"),
    }
    assert!(resolve_media(&mut s, &disk, now).is_empty(), "still in flight, not asked twice");

    s.emoji_requested.insert(address.clone(), now - MEDIA_RETRY_AFTER * 2);
    assert!(
        matches!(
            resolve_media(&mut s, &disk, now).as_slice(),
            [ClientMessage::FetchEmoji { .. }]
        ),
        "an old unanswered request is repeated"
    );

    s.emoji_requested.remove(&address);
    s.emoji_images.insert(address.clone(), "data:image/png;base64,AA==".into());
    assert!(
        resolve_media(&mut s, &disk, now).is_empty(),
        "an answered picture is never asked for again"
    );
    assert_eq!(
        s.media_src(&format!("media:{address}")).as_deref(),
        Some("data:image/png;base64,AA==")
    );
}

#[test]
fn work_is_proved_by_leading_zero_bits() {
    let nonce = solve_pow("challenge", 8).expect("a nonce");
    let digest = Sha256::digest(format!("challenge{nonce}").as_bytes());
    assert_eq!(digest[0], 0);
    assert!(solve_pow("c", 0).is_some());
}

#[test]
fn linked_pictures_are_not_sent() {
    assert!(profile_to_send(LocalProfile::default()).is_none());
    let local = LocalProfile {
        avatar: Some("https://x/a.png".into()),
        banner: Some("data:b".into()),
        ..LocalProfile::default()
    };
    match profile_to_send(local) {
        Some(ClientMessage::SetProfile { avatar, banner, .. }) => {
            assert_eq!(avatar, None);
            assert_eq!(banner.as_deref(), Some("data:b"));
        }
        other => panic!("unexpected {other:?}"),
    }
}

// Sessions.

fn refused(g: Greeting) -> String {
    match g {
        Greeting::Refused(e) => e,
        other => panic!("unexpected {other:?}"),
    }
}

#[test]
fn the_gateway_greets_first() {
    assert_eq!(refused(greet(Inbound::Ended, "")), "server closed before Hello");
    assert_eq!(refused(greet(Inbound::Closed(None), "")), "server closed before Hello");
    assert_eq!(refused(greet(Inbound::Broken("x".into()), "")), "recv: x");
    assert_eq!(
        refused(greet(Inbound::Unreadable("x".into()), "")),
        "bad server frame before Hello: x"
    );
    let error = ServerMessage::Error { message: "m".into() };
    let shown = format!("{error:?}");
    assert_eq!(
        refused(greet(Inbound::Message(error), &shown)),
        format!("expected Hello, got {shown}")
    );
    assert!(matches!(greet(Inbound::Other, ""), Greeting::Wait));
    let hello = ServerMessage::Hello { nonce: "n".into() };
    assert!(matches!(greet(Inbound::Message(hello), ""), Greeting::Nonce(n) if n == "n"));
}

#[test]
fn we_sign_who_we_are() {
    let id = Identity::restore_from_private_key(&"11".repeat(32), "a").ok().expect("identity");
    match identify(&id, "ana", b"payload", "host:1", "1.0") {
        ClientMessage::Identify { username, pubkey, signature, origin, bot, client_version } => {
            assert_eq!(username, "ana");
            assert_eq!(pubkey, id.pubkey);
            assert_eq!(signature, id.sign_hex(b"payload"));
            assert_eq!(origin, "host:1");
            assert!(!bot);
            assert_eq!(client_version, "1.0");
        }
        other => panic!("unexpected {other:?}"),
    }
}

#[test]
fn a_session_ends_with_its_reason() {
    assert!(matches!(on_inbound(Inbound::Ended), SessionStep::End));
    assert!(matches!(on_inbound(Inbound::Closed(Some(String::new()))), SessionStep::End));
    assert!(matches!(
        on_inbound(Inbound::Closed(Some("bye".into()))),
        SessionStep::Fail(e) if e == "bye"
    ));
    assert!(matches!(on_inbound(Inbound::Broken("x".into())), SessionStep::Fail(e) if e == "recv: x"));
    assert!(matches!(on_inbound(Inbound::Unreadable("x".into())), SessionStep::Skip));
    assert!(matches!(on_inbound(Inbound::Other), SessionStep::Skip));
    let hello = ServerMessage::Hello { nonce: "n".into() };
    assert!(matches!(on_inbound(Inbound::Message(hello)), SessionStep::Apply(_)));
    let mut s = AppState::empty();
    s.status = ConnectionStatus::Ready;
    assert_eq!(on_end(&mut s, Ok(())), "connection closed");
    assert_eq!(s.status, ConnectionStatus::Disconnected);
    assert_eq!(on_end(&mut s, Err("why".into())), "why");
    assert_eq!(direct_transport(true), Transport::QuicRelayed);
    assert_eq!(direct_transport(false), Transport::Quic);
}

// Direct connections.

fn named(seed: &str, name: &str) -> Identity {
    Identity::restore_from_private_key(&seed.repeat(32), name).ok().expect("identity")
}

#[test]
fn transport_keys_are_stable_and_distinct() {
    let a = named("11", "a");
    let b = named("22", "b");
    assert_eq!(endpoint_for(&a), endpoint_for(&a));
    assert_ne!(endpoint_for(&a), endpoint_for(&b));
    assert_ne!(endpoint_for(&a), hex::encode(secret_for(&a)));
}

#[test]
fn the_transport_seed_is_not_the_identity_secret() {
    let id = named("33", "c");
    assert_ne!(id.transport_seed(), [0x33_u8; 32]);
}

#[test]
fn a_relay_in_the_address_list_is_the_coordinator() {
    let addrs = vec![
        parse_transport_addr("192.168.1.5:4433", Some("192.168.1.5:4433".into())).unwrap(),
        parse_transport_addr("https://relay.example/", None).unwrap(),
    ];
    assert_eq!(
        coordination_from(&addrs),
        Coordination::Relay("https://relay.example/".into())
    );
    assert_eq!(coordination_from(&addrs[..1].to_vec()), Coordination::Nobody);
}

#[test]
fn a_host_is_dialled_by_a_key_and_some_way() {
    let key = endpoint_for(&named("11", "a"));
    let relay = GivenAddr { raw: "https://relay.example".into(), socket: None };
    let junk = GivenAddr { raw: "junk".into(), socket: None };
    let plan = dial_plan(&key, &vec![junk.clone(), relay]).expect("a plan");
    assert_eq!(hex::encode(plan.endpoint), key);
    assert_eq!(plan.addrs, vec![TransportAddr::Relay("https://relay.example/".into())]);
    assert_eq!(plan.coordination, Coordination::Relay("https://relay.example/".into()));
    assert_eq!(
        dial_plan(&key, &vec![junk]).expect_err("no way"),
        "the host published a key but no address to reach it at"
    );
    assert!(dial_plan("zz", &Vec::new()).expect_err("no key").starts_with("bad endpoint key: "));
    assert_eq!(hex::encode(parse_endpoint_id(&key).expect("a key")), key);
}

// Ports.

fn v4(a: u32, b: u32, c: u32, d: u32) -> Ip {
    Ip::V4(a << 24 | b << 16 | c << 8 | d)
}

#[test]
fn private_addresses_are_not_public() {
    for ip in [
        v4(192, 168, 1, 1),
        v4(10, 0, 0, 1),
        v4(172, 16, 0, 1),
        v4(100, 64, 0, 1),
        v4(100, 127, 255, 255),
        v4(127, 0, 0, 1),
        v4(169, 254, 1, 1),
    ] {
        assert!(is_private(ip), "{ip:?} should be private");
    }
    for ip in [v4(203, 0, 113, 5), v4(8, 8, 8, 8), v4(100, 128, 0, 1), v4(99, 255, 255, 255)] {
        assert!(!is_private(ip), "{ip:?} should be public");
    }
}

#[test]
fn longer_addresses_can_be_private_too() {
    assert!(is_private(Ip::V6(1)));
    assert!(is_private(Ip::V6(0xfc00 << 112)));
    assert!(is_private(Ip::V6((0xfdff << 112) + 7)));
    assert!(!is_private(Ip::V6(0xfe00 << 112)));
    assert!(!is_private(Ip::V6(0x2001 << 112)));
    assert!(check_public(v4(8, 8, 8, 8), "8.8.8.8").is_ok());
    let e = check_public(v4(10, 0, 0, 1), "10.0.0.1").expect_err("private");
    assert!(e.starts_with("your router's own address (10.0.0.1) is private"), "{e}");
    assert!(no_router("a", "b").contains("UPnP-IGD: a; NAT-PMP: b."));
}

#[test]
fn a_port_under_another_number_is_of_no_use() {
    let ports = Ports { media_tcp: 1, media_tcp_ice: 2, media_udp: 3, quic_udp: 4 };
    assert_eq!(mappings(ports)[0], (Protocol::Udp, 4));
    assert_eq!(mappings(ports)[3], (Protocol::Udp, 3));
    assert_eq!(judge_quic(&Ok(4), 4), Ok(true));
    assert_eq!(judge_quic(&Ok(5), 4), Ok(false));
    assert_eq!(
        judge_quic(&Err("no".into()), 4),
        Err("the router refused to forward the QUIC port: no".to_string())
    );
    assert!(judge_media(&Ok(1), &Ok(2), &Ok(3), ports));
    assert!(!judge_media(&Ok(1), &Ok(9), &Ok(3), ports));
    assert!(!judge_media(&Err("no".into()), &Ok(2), &Ok(3), ports));
    let m = mapped("NAT-PMP", "8.8.8.8".into(), false, true, false, true);
    assert!(!m.hairpin, "it matters to media only");
    assert_eq!(socket("8.8.8.8", false, 7), "8.8.8.8:7");
    assert_eq!(socket("::1", true, 7), "[::1]:7");
}

// Hosting.

fn granted(media: bool, hairpin: bool, quic: bool) -> Mapped {
    Mapped {
        method: "UPnP-IGD",
        public_ip: "8.8.8.8".into(),
        public_v6: false,
        media,
        quic,
        hairpin,
    }
}

#[test]
fn who_can_reach_a_host_is_said() {
    assert_eq!(bind_ip(true), "0.0.0.0");
    assert_eq!(bind_ip(false), "127.0.0.1");
    assert_eq!(
        reachability(false, MappingOutcome::NoAddress, 1),
        Reachability::LoopbackOnly
    );
    assert_eq!(
        reachability(true, MappingOutcome::Refused("why".into()), 1),
        Reachability::LanOnly { reason: "why".into() }
    );
    assert_eq!(
        reachability(true, MappingOutcome::NoAddress, 1),
        Reachability::LanOnly {
            reason: "this machine has no IPv4 address on a local network".into()
        }
    );
    assert_eq!(
        reachability(true, MappingOutcome::Granted(granted(true, false, true)), 9000),
        Reachability::Direct { endpoint: "8.8.8.8:9000".into(), method: "UPnP-IGD", media: false }
    );
    assert_eq!(advertised_ip(&Some(granted(true, true, true))), Some("8.8.8.8"));
    assert_eq!(advertised_ip(&Some(granted(true, false, true))), None);
    assert_eq!(advertised_ip(&None), None);
}

#[test]
fn a_host_is_advertised_where_it_can_be_dialled() {
    let id = named("11", "a");
    let lan = 192 << 24 | 168 << 16 | 1 << 8 | 5;
    let relays = vec!["https://r/".to_string()];
    let ad = transport_advert(&id, &Some(granted(true, true, true)), Some(lan), Some(7), &relays)
        .expect("an advert");
    assert_eq!(ad.addrs, ["8.8.8.8:7", "192.168.1.5:7", "https://r/"]);
    assert_eq!(ad.key, endpoint_for(&id));
    assert!(transport_advert(&id, &None, None, Some(7), &Vec::new()).is_none());
    assert!(transport_advert(&id, &None, Some(lan), None, &relays).is_none());
    let ad = transport_advert(&id, &Some(granted(true, true, false)), None, Some(7), &relays);
    assert_eq!(ad.expect("an advert").addrs, ["https://r/"]);
}

fn info(registration: Registration, bundled: bool) -> HostInfo {
    let lan = Some(LocalIp { ip: v4(192, 168, 1, 5), text: "192.168.1.5".into() });
    host_info(
        "0.0.0.0:9000".into(),
        9000,
        &lan,
        registration,
        bundled,
        7880,
        true,
        Reachability::LoopbackOnly,
    )
}

#[test]
fn what_is_known_of_a_host_is_put_together() {
    assert_eq!(local_ipv4(Some(v4(192, 168, 1, 5))), Some(192 << 24 | 168 << 16 | 1 << 8 | 5));
    assert_eq!(local_ipv4(Some(v4(127, 0, 0, 1))), None);
    assert_eq!(local_ipv4(Some(v4(0, 0, 0, 0))), None);
    assert_eq!(local_ipv4(Some(Ip::V6(9))), None);
    assert_eq!(local_url(9000), "ws://127.0.0.1:9000");
    let loopback = Some(LocalIp { ip: v4(127, 0, 0, 1), text: "127.0.0.1".into() });
    assert_eq!(lan_url_for(&loopback, 9000), "ws://127.0.0.1:9000");
    let done = info(
        Registration::Done { shortcode: "abc".into(), livekit_url: Some("wss://sfu".into()) },
        true,
    );
    assert_eq!(done.lan_url, "ws://192.168.1.5:9000");
    assert_eq!(done.livekit_url, "wss://sfu");
    assert!(!done.voice_bundled);
    assert_eq!(done.shortcode.as_deref(), Some("abc"));
    let failed = info(Registration::Failed("no".into()), true);
    assert_eq!(failed.publish_error.as_deref(), Some("no"));
    assert_eq!(failed.livekit_url, "ws://127.0.0.1:7880");
    assert!(failed.voice_bundled);
    let alone = info(Registration::NotAsked, false);
    assert_eq!(alone.livekit_url, "");
    assert!(starts_bundled(None) && !starts_bundled(Some("x")));
    assert!(minted_elsewhere(Some("u"), Some("g")) && !minted_elsewhere(Some("u"), None));
    assert_eq!(livekit_display(None, true, 1), "ws://127.0.0.1:1");
}

// Microphones.

fn wave(tag: u16, bits: u16) -> WaveFormat {
    WaveFormat {
        tag,
        extra: 22,
        sub_format: SUBTYPE_PCM,
        sub_format_text: "X".into(),
        bits,
        channels: 2,
        rate: 48_000,
    }
}

#[test]
fn a_format_is_taken_or_refused() {
    assert_eq!(
        describe(&wave(WAVE_FORMAT_IEEE_FLOAT, 32)),
        Ok(Format { rate: 48_000, channels: 2, sample: Sample::Float32 })
    );
    assert_eq!(
        describe(&wave(WAVE_FORMAT_EXTENSIBLE, 16)).map(|f| f.sample),
        Ok(Sample::Int16)
    );
    let mut f = wave(WAVE_FORMAT_EXTENSIBLE, 16);
    f.extra = 21;
    assert_eq!(describe(&f), Err("the microphone reported a truncated format".to_string()));
    f.extra = 22;
    f.sub_format = 5;
    assert_eq!(describe(&f), Err("unsupported microphone format X".to_string()));
    assert_eq!(
        describe(&wave(WAVE_FORMAT_PCM, 24)),
        Err("unsupported microphone format (tag 1, 24-bit)".to_string())
    );
    let mut f = wave(WAVE_FORMAT_PCM, 32);
    f.channels = 0;
    assert_eq!(describe(&f), Err("the microphone reported an empty format".to_string()));
}

#[test]
fn errors_of_the_audio_system_are_explained() {
    assert_eq!(explain(0x8889_0010), "the Windows Audio service isn't running");
    assert_eq!(explain(0x8889_000A), "another app has the microphone exclusively");
    assert_eq!(explain(0x8889_0008), "the audio engine rejected the capture format");
    assert_eq!(explain(0x8007_0005), "Windows denied access to the microphone");
    assert_eq!(explain(0x1a), format!("error {:#010x}", 0x1a));
    assert!(supported("windows") && !supported("linux"));
    assert_eq!(after_wait(Waited::Audio, ""), Ok(true));
    assert_eq!(after_wait(Waited::Shutdown, ""), Ok(false));
    assert!(after_wait(Waited::TimedOut, "").is_err());
    assert_eq!(
        after_wait(Waited::Failed, "7"),
        Err("the audio engine stopped responding (7)".to_string())
    );
}

// Logs.

#[test]
fn the_filter_names_the_crate_the_compiler_actually_used() {
    assert_eq!(log_crate_root(), "Discordia");
}

#[test]
fn a_log_rolls_over_when_it_is_full() {
    assert_eq!(default_filter(), "warn,Discordia=info,dioxusfun_server=info");
    assert!(rolls_over(Some(10), 10));
    assert!(!rolls_over(Some(9), 10));
    assert!(!rolls_over(None, 0));
}

#[test]
fn a_host_that_stays_home_opens_no_door() {
    assert_eq!(doors(false, true), (false, false));
    assert_eq!(doors(false, false), (false, false));
    assert_eq!(doors(true, false), (true, false));
    assert_eq!(doors(true, true), (true, true));
}

#[test]
fn a_login_is_bound_to_a_host_and_a_port() {
    assert_eq!(dial_origin("wss://Example.org/gateway").as_deref(), Some("example.org:443"));
    assert_eq!(dial_origin("ws://127.0.0.1:8080/gateway").as_deref(), Some("127.0.0.1:8080"));
    assert_eq!(dial_origin("ws://[::1]/gateway").as_deref(), Some("[::1]:80"));
    assert_eq!(dial_origin("not a url"), None);
    assert_eq!(dial_origin("mailto:a@b"), None);
    assert_eq!(origin_at("h", 65535), "h:65535");
}

#[test]
fn many_pictures_are_asked_for_in_batches() {
    let mut s = AppState::empty();
    let channel = Id { value: 1 };
    let mut all = Vec::new();
    let mut posted = Vec::new();
    for i in 0..100 {
        let address = format!("{i:064x}.png");
        posted.push(message(channel, Some(format!("media:{address}"))));
        all.push(address);
    }
    s.messages.insert(channel, posted);
    let mut asked = Vec::new();
    for m in resolve_media(&mut s, &TextTable::new(), 5) {
        match m {
            ClientMessage::FetchEmoji { images } => asked.extend(images),
            other => panic!("{other:?}"),
        }
    }
    asked.sort();
    assert_eq!(asked, all, "each once, and none left out");
    assert!(resolve_media(&mut s, &TextTable::new(), 6).is_empty());
}

#[test]
fn blanks_of_every_kind_are_trimmed() {
    for blank in ["\u{3000}", "\u{85}", "\u{a0}", "\u{2003}", "\u{b}", "\u{2028}"] {
        assert_eq!(
            normalize_url(&format!("{blank}example.org{blank}")),
            normalize_url("example.org")
        );
    }
    assert_ne!(normalize_url("\u{200b}").err().as_deref(), Some("server URL is required"));
    assert_eq!(normalize_url("\u{205f}").err().as_deref(), Some("server URL is required"));
}
