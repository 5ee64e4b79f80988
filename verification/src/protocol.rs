//! What travels between the client and the gateway.

use crate::text::texts;
use vstd::prelude::*;
use vstd::string::*;

verus! {

/// The identifier of a guild, a channel, a message or a role.
#[derive(Debug, Clone, Copy, PartialEq, Eq, Structural)]
pub struct Id {
    pub value: u128,
}

#[derive(Debug, Clone, PartialEq, Eq)]
pub struct User {
    pub pubkey: String,
    pub username: String,
}

#[derive(Debug, Clone, PartialEq, Eq)]
pub struct Guild {
    pub id: Id,
    pub name: String,
    pub owner: String,
    pub icon_image: Option<String>,
    pub banner: Option<String>,
}

#[derive(Debug, Clone, Copy, PartialEq, Eq, Structural)]
pub enum ChannelKind {
    Text,
    Voice,
}

#[derive(Debug, Clone, PartialEq, Eq)]
pub struct Channel {
    pub id: Id,
    pub guild_id: Id,
    pub name: String,
    pub kind: ChannelKind,
}

#[derive(Debug, Clone, PartialEq, Eq)]
pub struct Member {
    pub guild_id: Id,
    pub user: User,
    pub online: bool,
}

#[derive(Debug, Clone, PartialEq, Eq)]
pub struct VoiceState {
    pub guild_id: Id,
    pub user_pubkey: String,
    pub channel_id: Option<Id>,
    pub muted: bool,
    pub deafened: bool,
    pub speaking: bool,
    pub screen_sharing: bool,
}

#[derive(Debug, Clone, PartialEq, Eq)]
pub struct Profile {
    pub pubkey: String,
    pub avatar: Option<String>,
    pub banner: Option<String>,
    pub bio: Option<String>,
    pub status: Option<String>,
    pub custom_status: Option<String>,
}

/// What a role may do. Two grants are for the owner of a guild to give.
#[derive(Debug, Clone, Copy, PartialEq, Eq, Structural)]
pub enum Permission {
    ManageGuild,
    ManageRoles,
    Other(u8),
}

#[derive(Debug, Clone, PartialEq, Eq)]
pub struct Role {
    pub id: Id,
    pub guild_id: Id,
    pub name: String,
    pub color: Option<String>,
    pub permissions: Vec<Permission>,
}

#[derive(Debug, Clone, PartialEq, Eq)]
pub struct GuildEmoji {
    pub guild_id: Id,
    pub name: String,
    pub image: String,
}

#[derive(Debug, Clone, PartialEq, Eq)]
pub struct CatalogEntry {
    pub id: Id,
    pub name: String,
}

#[derive(Debug, Clone, PartialEq, Eq)]
pub struct Reaction {
    pub emoji: String,
    pub users: Vec<String>,
}

/// A message. Its time is in milliseconds.
#[derive(Debug, Clone, PartialEq, Eq)]
pub struct Message {
    pub id: Id,
    pub channel_id: Id,
    pub author: User,
    pub content: String,
    pub image: Option<String>,
    pub reactions: Vec<Reaction>,
    pub reply_to: Option<Id>,
    pub created_at: i64,
}

#[derive(Debug, Clone, PartialEq, Eq)]
pub struct EmojiBlob {
    pub image: String,
    pub data_url: String,
}

/// What a guild asks of those who join.
#[derive(Debug, Clone, Copy, PartialEq, Eq, Structural)]
pub enum JoinGate {
    Open,
    Rules,
    Pow,
}

#[derive(Debug, Clone, Copy, PartialEq, Eq, Structural)]
pub enum ActivityKind {
    Playing,
}

#[derive(Debug, Clone, PartialEq, Eq)]
pub struct Activity {
    pub kind: ActivityKind,
    pub name: String,
    pub details: Option<String>,
    pub state: Option<String>,
    pub started_ms: Option<i64>,
}

/// What the gateway says.
#[derive(Debug, Clone, PartialEq, Eq)]
pub enum ServerMessage {
    Hello { nonce: String },
    Ready {
        user: User,
        guilds: Vec<Guild>,
        channels: Vec<Channel>,
        members: Vec<Member>,
        voice_states: Vec<VoiceState>,
        catalog: Vec<CatalogEntry>,
        profiles: Vec<Profile>,
        roles: Vec<Role>,
        emojis: Vec<GuildEmoji>,
        operator: bool,
    },
    MessageHistory { channel_id: Id, messages: Vec<Message> },
    MessageCreate(Message),
    GuildJoined {
        guild: Guild,
        channels: Vec<Channel>,
        members: Vec<Member>,
        roles: Vec<Role>,
        emojis: Vec<GuildEmoji>,
        voice_states: Vec<VoiceState>,
    },
    GuildCatalog { guilds: Vec<CatalogEntry>, offset: u64, total: u64 },
    GuildDelete { guild_id: Id },
    ProfileUpdate(Profile),
    ReactionUpdate { channel_id: Id, message_id: Id, reactions: Vec<Reaction> },
    TypingUpdate { channel_id: Id, user_pubkey: String, username: String },
    GuildUpdate(Guild),
    GuildIntegrations { guild_id: Id, bots: Vec<User> },
    GuildRoles { guild_id: Id, roles: Vec<Role> },
    GuildEmojis { guild_id: Id, emojis: Vec<GuildEmoji> },
    EmojiBlobs { blobs: Vec<EmojiBlob> },
    MemberUpdate(Member),
    MemberRemove { guild_id: Id, user_pubkey: String },
    GuildInvite { guild_id: Id, code: String },
    GuildBans { guild_id: Id, users: Vec<User> },
    AuditLog { guild_id: Id, entries: Vec<String> },
    JoinChallenge {
        guild_id: Id,
        gate: JoinGate,
        rules: Option<String>,
        pow_challenge: Option<String>,
        pow_difficulty: Option<u32>,
        invite_code: Option<String>,
    },
    ChannelCreate(Channel),
    ChannelUpdate(Channel),
    ChannelDelete { guild_id: Id, channel_id: Id },
    MessageDelete { channel_id: Id, message_id: Id },
    ScreenShareState { channel_id: Id, sharers: Vec<String> },
    MemberJoin(Member),
    MemberLeave { guild_id: Id, user_pubkey: String },
    MediaKey { channel_id: Id, from: String, epoch: u32, blob: String },
    VoiceStateUpdate(VoiceState),
    VoiceToken { channel_id: Id, livekit_url: String, token: String },
    ScreenToken { livekit_url: String, token: String, audio_token: String, video_token: String },
    Error { message: String },
}

/// What is said to the gateway.
#[derive(Debug, Clone, PartialEq, Eq)]
pub enum ClientMessage {
    Identify {
        username: String,
        pubkey: String,
        signature: String,
        origin: String,
        bot: bool,
        client_version: String,
    },
    FetchMessages { channel_id: Id, limit: u32, before_ms: Option<i64> },
    FetchEmoji { images: Vec<String> },
    JoinByInvite { code: String, accept: bool, pow_nonce: Option<String> },
    JoinGuild { guild_id: Id, accept: bool, pow_nonce: Option<String> },
    ShareMediaKey { channel_id: Id, to: String, epoch: u32, blob: String },
    SetProfile {
        avatar: Option<String>,
        banner: Option<String>,
        bio: Option<String>,
        status: Option<String>,
        custom_status: Option<String>,
    },
    SetActivity { activity: Option<Activity> },
    CreateRole {
        guild_id: Id,
        name: String,
        color: Option<String>,
        permissions: Vec<Permission>,
    },
    UpdateRole {
        guild_id: Id,
        role_id: Id,
        name: String,
        color: Option<String>,
        permissions: Vec<Permission>,
    },
    DeleteRole { guild_id: Id, role_id: Id },
    SetScreenShare { channel_id: Id, sharing: bool },
    SetSpeaking { speaking: bool },
    LeaveVoice,
}

/// What is shared of this machine's screens.
#[derive(Debug, Clone, Copy, PartialEq, Eq, Structural)]
pub enum ShareTarget {
    Display(u64),
    Window(u64),
    Application(u64),
}

/// Something on this machine that can be shared: a screen or an app as a whole, or one
/// window of an app.
#[derive(Debug, Clone, PartialEq, Eq)]
pub struct ScreenSource {
    pub target: ShareTarget,
    pub title: String,
    pub app: Option<String>,
    pub width: u32,
    pub height: u32,
}

/// What the capture of this machine is set to.
#[derive(Debug, Clone, Copy, PartialEq, Eq, Structural)]
pub struct CaptureSettings {
    pub width: u32,
    pub height: u32,
    pub fps: u32,
    pub max_bitrate: u64,
}

/// What the voice service is asked to do.
#[derive(Debug, Clone, PartialEq, Eq)]
pub enum VoiceCmd {
    Connect { livekit_url: String, token: String, channel_id: Id },
    Disconnect,
    ListDevices,
    SetDevices { input: Option<String>, output: Option<String> },
    SetMute { muted: bool },
    SetDeafen { deafened: bool },
    SetSensitivity { threshold: u32 },
    SetDenoiseAttenLim { db: u32 },
    SetNoiseCancellation { enabled: bool },
    SetBypassSystemProcessing { enabled: bool },
    SetMicVolume { percent: u16 },
    SetAutoGainControl { enabled: bool },
    SetVoiceBitrate { kbps: u32 },
    SetStatsPolling { enabled: bool },
    SetSystemAudio { enabled: bool, target: Option<ShareTarget> },
    SetScreenAudio { room: Option<(String, String)> },
    SetScreenVideo { room: Option<(String, String)>, target: ShareTarget, settings: CaptureSettings },
}

/// A clone of an optional string.
pub(crate) fn copy_text(o: &Option<String>) -> (r: Option<String>)
    ensures
        r == *o,
{
    match o {
        Some(s) => Some(s.clone()),
        None => None,
    }
}

/// A copy of a list of texts.
pub(crate) fn copy_texts(v: &Vec<String>) -> (r: Vec<String>)
    ensures
        r@ == v@,
        texts(r@) == texts(v@),
{
    let mut out: Vec<String> = Vec::new();
    let mut i: usize = 0;
    while i < v.len()
        invariant
            i <= v@.len(),
            out@ == v@.take(i as int),
        decreases v@.len() - i,
    {
        out.push(v[i].clone());
        i = i + 1;
        assert(v@.take(i as int) =~= v@.take(i - 1).push(v@[i - 1]));
    }
    assert(v@.take(i as int) =~= v@);
    out
}

} // verus!
