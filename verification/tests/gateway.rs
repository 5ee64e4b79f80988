use discordia::gateway::{apply, emoji_addresses, is_emoji_address, join_message, Effect};
use discordia::identity::Identity;
use discordia::mediakey::{generate, seal};
use discordia::protocol::{
    CatalogEntry, Channel, ChannelKind, ClientMessage, EmojiBlob, Guild, GuildEmoji, Id, JoinGate,
    Member, Message, Profile, Reaction, Role, ServerMessage, User, VoiceState,
};
use discordia::state::{holds_message, media_address, merge_messages, sort_by_time, AppState, ConnectionStatus};

const GUILD: Id = Id { value: 1 };
const CHANNEL: Id = Id { value: 2 };

fn user(name: &str) -> User {
    User { pubkey: name.into(), username: name.into() }
}

fn guild() -> Guild {
    Guild { id: GUILD, name: "G".into(), owner: "me".into(), icon_image: None, banner: None }
}

fn channel(id: Id, kind: ChannelKind) -> Channel {
    Channel { id, guild_id: GUILD, name: "c".into(), kind }
}

fn message(id: u128, at: i64) -> Message {
    Message {
        id: Id { value: id },
        channel_id: CHANNEL,
        author: user("you"),
        content: "hi".into(),
        image: None,
        reactions: Vec::new(),
        reply_to: None,
        created_at: at,
    }
}

fn ready() -> ServerMessage {
    ServerMessage::Ready {
        user: user("me"),
        guilds: vec![guild()],
        channels: vec![channel(CHANNEL, ChannelKind::Text)],
        members: vec![Member { guild_id: GUILD, user: user("me"), online: true }],
        voice_states: Vec::new(),
        catalog: Vec::new(),
        profiles: vec![Profile {
            pubkey: "me".into(),
            avatar: None,
            banner: None,
            bio: Some("b".into()),
            status: None,
            custom_status: None,
        }],
        roles: Vec::new(),
        emojis: vec![GuildEmoji { guild_id: GUILD, name: "e".into(), image: "e.png".into() }],
        operator: true,
    }
}

fn started() -> AppState {
    let mut s = AppState::empty();
    apply(&mut s, ready(), 0);
    s
}

#[test]
fn a_session_begins_with_what_the_gateway_knows() {
    let mut s = AppState::empty();
    apply(&mut s, ready(), 0);
    assert_eq!(s.status, ConnectionStatus::Ready);
    assert_eq!(s.self_user, Some(user("me")));
    assert!(s.is_operator);
    assert_eq!(s.guilds.len(), 1);
    assert_eq!(s.profiles.get("me").and_then(|p| p.bio.clone()).as_deref(), Some("b"));
    assert_eq!(emoji_addresses(&s), vec!["e.png".to_string()]);
    assert!(is_emoji_address(&s, "e.png") && !is_emoji_address(&s, "f.png"));
}

#[test]
fn messages_are_filed_once_and_can_be_deleted() {
    let mut s = started();
    apply(&mut s, ServerMessage::MessageCreate(message(10, 5)), 0);
    let history = ServerMessage::MessageHistory {
        channel_id: CHANNEL,
        messages: vec![message(9, 1), message(10, 5)],
    };
    apply(&mut s, history, 0);
    let filed = s.messages.get(CHANNEL).expect("messages");
    assert_eq!(filed.iter().map(|m| m.id.value).collect::<Vec<_>>(), vec![9, 10]);
    let reactions = vec![Reaction { emoji: "x".into(), users: vec!["you".into()] }];
    let update = ServerMessage::ReactionUpdate {
        channel_id: CHANNEL,
        message_id: Id { value: 10 },
        reactions: reactions.clone(),
    };
    apply(&mut s, update, 0);
    assert_eq!(s.messages.get(CHANNEL).expect("messages")[1].reactions, reactions);
    let gone = ServerMessage::MessageDelete { channel_id: CHANNEL, message_id: Id { value: 9 } };
    apply(&mut s, gone, 0);
    assert_eq!(s.messages.get(CHANNEL).expect("messages").len(), 1);
}

#[test]
fn a_guild_comes_changes_and_goes() {
    let mut s = started();
    let mut renamed = guild();
    renamed.name = "H".into();
    apply(&mut s, ServerMessage::GuildUpdate(renamed), 0);
    assert_eq!(s.guilds[0].name, "H");
    let other = Channel { id: Id { value: 5 }, ..channel(CHANNEL, ChannelKind::Voice) };
    apply(&mut s, ServerMessage::ChannelCreate(other.clone()), 0);
    assert!(s.channels.contains(&other));
    apply(&mut s, ServerMessage::ChannelDelete { guild_id: GUILD, channel_id: other.id }, 0);
    assert!(!s.channels.contains(&other));
    let roles = vec![Role {
        id: Id { value: 6 },
        guild_id: GUILD,
        name: "r".into(),
        color: None,
        permissions: Vec::new(),
    }];
    apply(&mut s, ServerMessage::GuildRoles { guild_id: GUILD, roles: roles.clone() }, 0);
    assert_eq!(s.roles.get(GUILD), Some(&roles));
    apply(&mut s, ServerMessage::GuildDelete { guild_id: GUILD }, 0);
    assert!(s.guilds.is_empty());
    assert!(s.channels.is_empty());
}

#[test]
fn members_come_and_go() {
    let mut s = started();
    let you = Member { guild_id: GUILD, user: user("you"), online: true };
    apply(&mut s, ServerMessage::MemberJoin(you.clone()), 0);
    assert!(s.members.contains(&you));
    apply(&mut s, ServerMessage::MemberLeave { guild_id: GUILD, user_pubkey: "you".into() }, 0);
    assert!(s.members.iter().all(|m| m.user.pubkey != "you" || !m.online));
    let invite = ServerMessage::GuildInvite { guild_id: GUILD, code: "abc".into() };
    apply(&mut s, invite, 0);
    assert_eq!(s.invites.get(GUILD).map(String::as_str), Some("abc"));
    apply(&mut s, ServerMessage::GuildBans { guild_id: GUILD, users: vec![user("x")] }, 0);
    assert_eq!(s.bans.get(GUILD).map(Vec::len), Some(1));
    let page = |name: &str, offset: u64| ServerMessage::GuildCatalog {
        guilds: vec![CatalogEntry { id: GUILD, name: name.into() }],
        offset,
        total: 2,
    };
    apply(&mut s, page("a", 0), 0);
    assert_eq!(s.catalog.len(), 1);
    assert_eq!(s.catalog_total, 2);
}

#[test]
fn a_picture_that_came_is_kept_and_stored() {
    let mut s = started();
    let blobs = vec![EmojiBlob { image: "e.png".into(), data_url: "data:e".into() }];
    let effects = apply(&mut s, ServerMessage::EmojiBlobs { blobs }, 0);
    assert_eq!(s.emoji_images.get("e.png").map(String::as_str), Some("data:e"));
    assert!(effects
        .iter()
        .any(|e| matches!(e, Effect::StoreEmoji { image, .. } if image == "e.png")));
}

#[test]
fn a_door_may_ask_for_work_or_rules() {
    let mut s = started();
    let work = ServerMessage::JoinChallenge {
        guild_id: GUILD,
        gate: JoinGate::Pow,
        rules: None,
        pow_challenge: Some("c".into()),
        pow_difficulty: Some(4),
        invite_code: None,
    };
    let effects = apply(&mut s, work, 0);
    assert!(effects
        .iter()
        .any(|e| matches!(e, Effect::SolvePow { challenge, bits: 4, .. } if challenge == "c")));
    let rules = ServerMessage::JoinChallenge {
        guild_id: GUILD,
        gate: JoinGate::Rules,
        rules: Some("be kind".into()),
        pow_challenge: None,
        pow_difficulty: None,
        invite_code: Some("abc".into()),
    };
    apply(&mut s, rules, 0);
    assert_eq!(s.rules_prompt.map(|p| p.rules), Some("be kind".to_string()));
    assert!(matches!(
        join_message(GUILD, Some("abc".into()), true, None),
        ClientMessage::JoinByInvite { code, accept: true, .. } if code == "abc"
    ));
    assert!(matches!(
        join_message(GUILD, None, true, Some("7".into())),
        ClientMessage::JoinGuild { pow_nonce: Some(n), .. } if n == "7"
    ));
}

#[test]
fn a_key_that_was_handed_to_us_is_used() {
    let secret = |seed: u8| {
        Identity::restore_from_private_key(&hex::encode([seed; 32]), "x").ok().expect("identity")
    };
    let (alice, bob) = (secret(1), secret(2));
    let key = generate();
    let blob = seal(&key, &bob.pubkey, 3, &alice).expect("seal");
    let mut s = started();
    s.self_user = Some(User { pubkey: bob.pubkey.clone(), username: "bob".into() });
    s.identity = Some(bob);
    let handed = |blob: &str, epoch: u32| ServerMessage::MediaKey {
        channel_id: CHANNEL,
        from: alice.pubkey.clone(),
        epoch,
        blob: blob.to_string(),
    };
    let effects = apply(&mut s, handed(&blob, 3), 0);
    assert_eq!(s.media_keys.get(CHANNEL), Some(&(3, key)));
    assert!(effects
        .iter()
        .any(|e| matches!(e, Effect::ApplyKey { key: k, epoch: 3 } if *k == key)));
    assert!(apply(&mut s, handed(&blob, 4), 0).is_empty(), "another epoch does not open it");
    assert_eq!(s.media_keys.get(CHANNEL), Some(&(3, key)));
}

#[test]
fn errors_are_shown_and_voices_followed() {
    let mut s = started();
    apply(&mut s, ServerMessage::Error { message: "no".into() }, 0);
    assert_eq!(s.error_toast.as_deref(), Some("no"));
    let v = VoiceState {
        guild_id: GUILD,
        user_pubkey: "you".into(),
        channel_id: Some(CHANNEL),
        muted: false,
        deafened: false,
        speaking: false,
        screen_sharing: false,
    };
    apply(&mut s, ServerMessage::VoiceStateUpdate(v.clone()), 0);
    assert_eq!(s.voice_states, vec![v.clone()]);
    let token = ServerMessage::VoiceToken {
        channel_id: CHANNEL,
        livekit_url: "u".into(),
        token: "t".into(),
    };
    let effects = apply(&mut s, token, 0);
    assert!(effects.iter().any(|e| matches!(e, Effect::Voice(_))));
}

#[test]
fn messages_stand_in_time() {
    let sorted = sort_by_time(vec![message(1, 9), message(2, 3), message(3, 9)]);
    assert_eq!(sorted.iter().map(|m| m.id.value).collect::<Vec<_>>(), vec![2, 1, 3]);
    let merged = merge_messages(sorted, vec![message(4, 1), message(2, 3)]);
    assert_eq!(merged.len(), 4);
    assert!(holds_message(&merged, Id { value: 4 }));
    assert_eq!(media_address("media:x.png").as_deref(), Some("x.png"));
    assert_eq!(media_address("x.png"), None);
}
