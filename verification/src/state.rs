//! What the client knows: the session, the guilds, the conversations, the call.

use crate::identity::Identity;
use crate::list::{any_where, find_where, turned};
use crate::nostr::nip02::{ContactList, ContactView};
use crate::protocol::{
    CatalogEntry, Channel, ChannelKind, Guild, GuildEmoji, Id, Member, Message, Profile, Role,
    ScreenSource, ShareTarget, User, VoiceState,
};
use crate::table::{IdTable, TextTable};
use crate::text::{begins_with, opt_text, same, skip, starts_with};
use vstd::prelude::*;
use vstd::string::*;

verus! {

#[derive(Debug, Clone, Copy, PartialEq, Eq, Structural)]
pub enum ConnectionStatus {
    Connecting,
    Ready,
    Disconnected,
}

/// How the gateway is reached.
#[derive(Debug, Clone, Copy, PartialEq, Eq, Structural)]
pub enum Transport {
    Loopback,
    Proxied,
    Quic,
    QuicRelayed,
}

#[derive(Debug, Clone, Copy, PartialEq, Eq, Structural)]
pub enum VoicePhase {
    Idle,
    Connecting,
    Connected,
    Error,
}

/// Our own part in a call.
#[derive(Debug)]
pub struct SelfVoice {
    pub phase: VoicePhase,
    pub channel_id: Option<Id>,
    pub muted: bool,
    pub deafened: bool,
    pub speaking: bool,
    pub error: Option<String>,
}

/// A direct conversation.
#[derive(Debug, Clone, PartialEq, Eq)]
pub struct DmInfo {
    pub channel_id: Id,
    pub other_pubkey: String,
}

/// Rules that have to be accepted before a guild lets one in.
#[derive(Debug, Clone, PartialEq, Eq)]
pub struct RulesPrompt {
    pub guild_id: Id,
    pub guild_name: Option<String>,
    pub rules: String,
    pub invite_code: Option<String>,
}

/// How well somebody is connected to the call.
#[derive(Debug, Clone, Copy, PartialEq, Eq, Structural)]
pub enum ConnectionHealth {
    Excellent,
    Good,
    Poor,
    Lost,
}

/// The sound of this machine: its devices, and what is done to the microphone.
#[derive(Debug)]
pub struct AudioState {
    pub session_epoch: u64,
    pub available_input_devices: Vec<String>,
    pub available_output_devices: Vec<String>,
    pub selected_input_device: Option<String>,
    pub selected_output_device: Option<String>,
    pub bypass_system_processing: bool,
    pub mic_bypass_error: Option<String>,
    pub mic_sensitivity: u32,
    pub denoise_atten_lim_db: u32,
    pub noise_cancellation: bool,
    pub mic_volume: u16,
    pub auto_gain_control: bool,
    pub voice_bitrate_kbps: u32,
    pub stats_polling: bool,
    pub quality: TextTable<ConnectionHealth>,
    pub stream_has_audio: TextTable<bool>,
    pub screen_audio_joined: bool,
}

/// Everything the views draw from.
pub struct AppState {
    pub status: ConnectionStatus,
    pub transport: Transport,
    pub identity: Option<Identity>,
    pub self_user: Option<User>,
    pub is_operator: bool,
    pub guilds: Vec<Guild>,
    pub channels: Vec<Channel>,
    pub members: Vec<Member>,
    pub voice_states: Vec<VoiceState>,
    pub catalog: Vec<CatalogEntry>,
    pub catalog_total: u64,
    pub profiles: TextTable<Profile>,
    pub roles: IdTable<Vec<Role>>,
    pub guild_emojis: IdTable<Vec<GuildEmoji>>,
    pub bans: IdTable<Vec<User>>,
    pub invites: IdTable<String>,
    pub integrations: IdTable<Vec<User>>,
    pub audit_logs: IdTable<Vec<String>>,
    pub rules_prompt: Option<RulesPrompt>,
    pub messages: IdTable<Vec<Message>>,
    pub typing: IdTable<TextTable<(String, u64)>>,
    pub selected_guild: Option<Id>,
    pub selected_channel: Option<Id>,
    pub dm_mode: bool,
    pub dms: Vec<DmInfo>,
    pub dm_unread: IdTable<u64>,
    pub dm_cleared_at: TextTable<i64>,
    pub notify_tick: u64,
    pub contacts: ContactList,
    pub nostr_event_ids: IdTable<String>,
    pub nostr_names: TextTable<(String, i64)>,
    pub nostr_relays_up: TextTable<bool>,
    pub emoji_images: TextTable<String>,
    pub emoji_requested: TextTable<u64>,
    pub media_keys: IdTable<(u32, [u8; 32])>,
    pub media_undecryptable: bool,
    pub pending_rekey: bool,
    pub voice: SelfVoice,
    pub screen_shares: IdTable<Vec<String>>,
    pub screen_viewing: Option<String>,
    pub screen_token: Option<(String, String)>,
    pub screen_audio_token: Option<(String, String)>,
    pub screen_video_token: Option<(String, String)>,
    pub screen_share_target: Option<ShareTarget>,
    pub screen_picker: Option<Result<Vec<ScreenSource>, String>>,
    pub screen_native_audio: bool,
    pub screen_capture_available: bool,
    pub stream_volumes: TextTable<u32>,
    pub stream_muted: TextTable<bool>,
    pub screen_sharing: bool,
    pub camera_on: bool,
    pub camera_starting: bool,
    pub cameras_watching: Vec<String>,
    pub error_toast: Option<String>,
    pub audio: AudioState,
}

/// The channels of a guild that carry text.
pub open spec fn text_of(guild: Id) -> spec_fn(Channel) -> bool {
    |c: Channel| c.guild_id == guild && c.kind == ChannelKind::Text
}

/// The channel a guild opens on: its first text channel.
pub open spec fn default_channel(channels: Seq<Channel>, guild: Id) -> Option<Id>
    decreases channels.len(),
{
    if channels.len() == 0 {
        None
    } else if text_of(guild)(channels[0]) {
        Some(channels[0].id)
    } else {
        default_channel(channels.drop_first(), guild)
    }
}

/// The items with an identifier.
pub open spec fn dm_is(channel: Id) -> spec_fn(DmInfo) -> bool {
    |d: DmInfo| d.channel_id == channel
}

/// The name we are known by, once the session has given us one.
pub open spec fn own_name(s: AppState) -> Option<Seq<char>> {
    match s.self_user {
        Some(u) => Some(u.pubkey@),
        None => None,
    }
}

/// Whether a conversation is on screen.
pub open spec fn viewing(s: AppState, channel: Id, is_dm: bool) -> bool {
    s.selected_channel == Some(channel) && is_dm == s.dm_mode
}

/// The text of a picture's address, when it has one.
pub open spec fn address_in(raw: Seq<char>) -> Option<Seq<char>> {
    if begins_with(raw, "media:"@) {
        Some(raw.skip("media:"@.len() as int))
    } else {
        None
    }
}

/// The address of a picture that the gateway holds.
pub fn media_address(raw: &str) -> (r: Option<String>)
    ensures
        opt_text(r) == address_in(raw@),
{
    if starts_with(raw, "media:") {
        proof {
            reveal_strlit("media:");
        }
        Some(skip(raw, 6))
    } else {
        None
    }
}

impl AppState {
    /// Nothing known yet.
    pub fn empty() -> (r: AppState)
        ensures
            r.status == ConnectionStatus::Connecting,
            r.identity is None && r.self_user is None && !r.is_operator,
            r.guilds@.len() == 0 && r.channels@.len() == 0 && r.members@.len() == 0,
            r.voice_states@.len() == 0 && r.catalog@.len() == 0 && r.dms@.len() == 0,
            r.profiles@ == Map::<Seq<char>, Profile>::empty(),
            r.messages@ == Map::<Id, Vec<Message>>::empty(),
            r.typing@ == Map::<Id, TextTable<(String, u64)>>::empty(),
            r.dm_unread@ == Map::<Id, u64>::empty(),
            r.dm_cleared_at@ == Map::<Seq<char>, i64>::empty(),
            r.emoji_images@ == Map::<Seq<char>, String>::empty(),
            r.emoji_requested@ == Map::<Seq<char>, u64>::empty(),
            r.media_keys@ == Map::<Id, (u32, [u8; 32])>::empty(),
            r.stream_volumes@ == Map::<Seq<char>, u32>::empty(),
            r.stream_muted@ == Map::<Seq<char>, bool>::empty(),
            r.contacts@ == Seq::<ContactView>::empty(),
            r.selected_guild is None && r.selected_channel is None && !r.dm_mode,
            r.voice.phase == VoicePhase::Idle && r.voice.channel_id is None,
            !r.pending_rekey && !r.screen_sharing && r.screen_viewing is None
                && r.screen_picker is None,
            r.error_toast is None,
    {
        AppState {
            status: ConnectionStatus::Connecting,
            transport: Transport::Loopback,
            identity: None,
            self_user: None,
            is_operator: false,
            guilds: Vec::new(),
            channels: Vec::new(),
            members: Vec::new(),
            voice_states: Vec::new(),
            catalog: Vec::new(),
            catalog_total: 0,
            profiles: TextTable::new(),
            roles: IdTable::new(),
            guild_emojis: IdTable::new(),
            bans: IdTable::new(),
            invites: IdTable::new(),
            integrations: IdTable::new(),
            audit_logs: IdTable::new(),
            rules_prompt: None,
            messages: IdTable::new(),
            typing: IdTable::new(),
            selected_guild: None,
            selected_channel: None,
            dm_mode: false,
            dms: Vec::new(),
            dm_unread: IdTable::new(),
            dm_cleared_at: TextTable::new(),
            notify_tick: 0,
            contacts: ContactList::default(),
            nostr_event_ids: IdTable::new(),
            nostr_names: TextTable::new(),
            nostr_relays_up: TextTable::new(),
            emoji_images: TextTable::new(),
            emoji_requested: TextTable::new(),
            media_keys: IdTable::new(),
            media_undecryptable: false,
            pending_rekey: false,
            voice: SelfVoice {
                phase: VoicePhase::Idle,
                channel_id: None,
                muted: false,
                deafened: false,
                speaking: false,
                error: None,
            },
            screen_shares: IdTable::new(),
            screen_viewing: None,
            screen_token: None,
            screen_audio_token: None,
            screen_video_token: None,
            screen_share_target: None,
            screen_picker: None,
            screen_native_audio: false,
            screen_capture_available: false,
            stream_volumes: TextTable::new(),
            stream_muted: TextTable::new(),
            screen_sharing: false,
            camera_on: false,
            camera_starting: false,
            cameras_watching: Vec::new(),
            error_toast: None,
            audio: AudioState {
                session_epoch: 0,
                available_input_devices: Vec::new(),
                available_output_devices: Vec::new(),
                selected_input_device: None,
                selected_output_device: None,
                bypass_system_processing: false,
                mic_bypass_error: None,
                mic_sensitivity: 50,
                denoise_atten_lim_db: 30,
                noise_cancellation: false,
                mic_volume: 100,
                auto_gain_control: false,
                voice_bitrate_kbps: 48,
                stats_polling: false,
                quality: TextTable::new(),
                stream_has_audio: TextTable::new(),
                screen_audio_joined: false,
            },
        }
    }

    /// The channel a guild opens on.
    pub fn default_channel_of(&self, guild: Id) -> (r: Option<Id>)
        ensures
            r == default_channel(self.channels@, guild),
    {
        let mut i: usize = 0;
        assert(self.channels@.skip(0) =~= self.channels@);
        while i < self.channels.len()
            invariant
                i <= self.channels@.len(),
                default_channel(self.channels@, guild) == default_channel(
                    self.channels@.skip(i as int),
                    guild,
                ),
            decreases self.channels@.len() - i,
        {
            assert(self.channels@.skip(i as int).drop_first() =~= self.channels@.skip(i + 1));
            let c: &Channel = &self.channels[i];
            if c.guild_id == guild && c.kind == ChannelKind::Text {
                return Some(c.id);
            }
            i = i + 1;
        }
        None
    }

    /// Whether a conversation is in the list.
    pub fn has_dm(&self, channel: Id) -> (r: bool)
        ensures
            r == any_where(self.dms@, dm_is(channel)),
    {
        let test = |d: &DmInfo| -> (b: bool)
            ensures
                b == (d.channel_id == channel),
        {
            d.channel_id == channel
        };
        find_where(&self.dms, test, Ghost(dm_is(channel))).is_some()
    }

    /// Whether a name is our own.
    pub fn is_self(&self, pubkey: &str) -> (r: bool)
        ensures
            r == (self.self_user is Some && self.self_user->Some_0.pubkey@ == pubkey@),
    {
        match &self.self_user {
            Some(u) => same(u.pubkey.as_str(), pubkey),
            None => false,
        }
    }

    /// Whether a message is worth a sound: it is not ours and not on screen.
    pub fn should_ring(&self, author_is_self: bool, on_screen: bool) -> (r: bool)
        ensures
            r == (!author_is_self && !on_screen),
    {
        !author_is_self && !on_screen
    }

    /// What is drawn for a picture: itself, or what the gateway handed over for
    /// its address.
    pub fn media_src(&self, raw: &str) -> (r: Option<String>)
        ensures
            opt_text(r) == match address_in(raw@) {
                None => Some(raw@),
                Some(address) => if self.emoji_images@.dom().contains(address) {
                    Some(self.emoji_images@[address]@)
                } else {
                    None
                },
            },
    {
        match media_address(raw) {
            None => Some(raw.to_owned()),
            Some(address) => match self.emoji_images.get(address.as_str()) {
                Some(data_url) => Some(data_url.clone()),
                None => None,
            },
        }
    }

    /// Marks a conversation as read.
    pub fn mark_dm_read(&mut self, channel: Id)
        ensures
            *final(self) == (AppState { dm_unread: final(self).dm_unread, ..*old(self) }),
            final(self).dm_unread@ == old(self).dm_unread@.remove(channel),
    {
        let _ = self.dm_unread.remove(channel);
    }

    /// Deletes a conversation up to a moment: what is older stays hidden.
    pub fn clear_dm(&mut self, peer: &str, at: i64)
        ensures
            *final(self) == (AppState { dm_cleared_at: final(self).dm_cleared_at, ..*old(self) }),
            final(self).dm_cleared_at@ == old(self).dm_cleared_at@.insert(peer@, at),
    {
        self.dm_cleared_at.insert(peer.to_owned(), at);
    }

    /// Remembers a published name, unless a later one is known.
    pub fn note_name(&mut self, pubkey: &str, name: String, created_at: i64)
        ensures
            *final(self) == (AppState { nostr_names: final(self).nostr_names, ..*old(self) }),
            final(self).nostr_names@ == if old(self).nostr_names@.dom().contains(pubkey@)
                && old(self).nostr_names@[pubkey@].1 > created_at {
                old(self).nostr_names@
            } else {
                old(self).nostr_names@.insert(pubkey@, (name, created_at))
            },
    {
        let newer: bool = match self.nostr_names.get(pubkey) {
            Some(known) => known.1 > created_at,
            None => false,
        };
        if !newer {
            self.nostr_names.insert(pubkey.to_owned(), (name, created_at));
        }
    }
}

/// A list ordered by time, equal times in the order they came.
pub open spec fn time_sorted(s: Seq<Message>) -> Seq<Message>
    decreases s.len(),
{
    if s.len() == 0 {
        s
    } else {
        placed(time_sorted(s.drop_last()), s.last())
    }
}

/// A list with a message behind all that are not later than it.
pub open spec fn placed(s: Seq<Message>, m: Message) -> Seq<Message>
    decreases s.len(),
{
    if s.len() > 0 && s.last().created_at > m.created_at {
        placed(s.drop_last(), m).push(s.last())
    } else {
        s.push(m)
    }
}

/// Whether no message stands before an earlier one.
pub open spec fn by_time(s: Seq<Message>) -> bool {
    forall|i: int, j: int|
        0 <= i < j < s.len() ==> (#[trigger] s[i]).created_at <= (#[trigger] s[j]).created_at
}

proof fn placed_facts(s: Seq<Message>, m: Message)
    requires
        by_time(s),
    ensures
        by_time(placed(s, m)),
        placed(s, m).to_multiset() == s.to_multiset().insert(m),
        placed(s, m).len() == s.len() + 1,
        forall|i: int|
            0 <= i < placed(s, m).len() ==> (#[trigger] placed(s, m)[i]) == m || (s.len() > 0
                && placed(s, m)[i].created_at <= s.last().created_at),
    decreases s.len(),
{
    if s.len() > 0 && s.last().created_at > m.created_at {
        let t = s.drop_last();
        assert(by_time(t)) by {
            assert forall|i: int, j: int| 0 <= i < j < t.len() implies (#[trigger] t[i]).created_at
                <= (#[trigger] t[j]).created_at by {
                assert(s[i].created_at <= s[j].created_at);
            }
        }
        placed_facts(t, m);
        let u = placed(t, m);
        let r = placed(s, m);
        assert(r =~= u.push(s.last()));
        assert forall|i: int| 0 <= i < u.len() implies (#[trigger] u[i]).created_at
            <= s.last().created_at by {
            if u[i] != m {
                assert(s[t.len() - 1].created_at <= s[s.len() - 1].created_at);
            }
        }
        assert forall|i: int, j: int| 0 <= i < j < r.len() implies (#[trigger] r[i]).created_at <= (
        #[trigger] r[j]).created_at by {
            if j == u.len() {
                assert(r[i] == u[i]);
            } else {
                assert(r[i] == u[i] && r[j] == u[j]);
            }
        }
        vstd::seq_lib::to_multiset_build(u, s.last());
        vstd::seq_lib::to_multiset_build(t, s.last());
        assert(t.push(s.last()) =~= s);
        assert(r.to_multiset() =~= s.to_multiset().insert(m));
    } else {
        vstd::seq_lib::to_multiset_build(s, m);
        let r = placed(s, m);
        assert forall|i: int, j: int| 0 <= i < j < r.len() implies (#[trigger] r[i]).created_at <= (
        #[trigger] r[j]).created_at by {
            if j == s.len() && i < s.len() {
                if i < s.len() - 1 {
                    assert(s[i].created_at <= s[s.len() - 1].created_at);
                }
            } else if j < s.len() {
                assert(s[i].created_at <= s[j].created_at);
            }
        }
        assert forall|i: int| 0 <= i < r.len() implies (#[trigger] r[i]) == m || (s.len() > 0
            && r[i].created_at <= s.last().created_at) by {
            if i < s.len() {
                assert(r[i] == s[i]);
                if i < s.len() - 1 {
                    assert(s[i].created_at <= s[s.len() - 1].created_at);
                }
            }
        }
    }
}

/// Sorting by time orders, loses nothing and adds nothing.
pub proof fn time_sorted_facts(s: Seq<Message>)
    ensures
        by_time(time_sorted(s)),
        time_sorted(s).to_multiset() == s.to_multiset(),
        time_sorted(s).len() == s.len(),
    decreases s.len(),
{
    if s.len() > 0 {
        time_sorted_facts(s.drop_last());
        placed_facts(time_sorted(s.drop_last()), s.last());
        vstd::seq_lib::to_multiset_build(s.drop_last(), s.last());
        assert(s.drop_last().push(s.last()) =~= s);
    }
}

/// Whether no two messages have the same id.
pub open spec fn ids_differ(s: Seq<Message>) -> bool {
    forall|i: int, j: int|
        0 <= i < s.len() && 0 <= j < s.len() && i != j ==> (#[trigger] s[i]).id != (
        #[trigger] s[j]).id
}

proof fn placed_ids(s: Seq<Message>, m: Message)
    ensures
        forall|i: int|
            0 <= i < placed(s, m).len() ==> (#[trigger] placed(s, m)[i]) == m || s.contains(
                placed(s, m)[i],
            ),
        ids_differ(s) && (forall|i: int| 0 <= i < s.len() ==> (#[trigger] s[i]).id != m.id)
            ==> ids_differ(placed(s, m)),
    decreases s.len(),
{
    let r = placed(s, m);
    if s.len() > 0 && s.last().created_at > m.created_at {
        let t = s.drop_last();
        let last = s.last();
        let u = placed(t, m);
        placed_ids(t, m);
        assert(r == u.push(last));
        assert forall|i: int| 0 <= i < r.len() implies (#[trigger] r[i]) == m || s.contains(
            r[i],
        ) by {
            if i < u.len() {
                assert(r[i] == u[i]);
                if u[i] != m {
                    let k = choose|k: int| 0 <= k < t.len() && t[k] == u[i];
                    assert(s[k] == u[i]);
                }
            } else {
                assert(s[s.len() - 1] == r[i]);
            }
        }
        if ids_differ(s) && (forall|i: int| 0 <= i < s.len() ==> (#[trigger] s[i]).id != m.id) {
            assert forall|i: int, j: int|
                0 <= i < t.len() && 0 <= j < t.len() && i != j implies (#[trigger] t[i]).id != (
            #[trigger] t[j]).id by {
                assert(s[i].id != s[j].id);
            }
            assert forall|i: int| 0 <= i < t.len() implies (#[trigger] t[i]).id != m.id by {
                assert(s[i].id != m.id);
            }
            assert forall|i: int| 0 <= i < u.len() implies (#[trigger] u[i]).id != last.id by {
                if u[i] == m {
                    assert(s[s.len() - 1].id != m.id);
                } else {
                    let k = choose|k: int| 0 <= k < t.len() && t[k] == u[i];
                    assert(s[k].id != s[s.len() - 1].id);
                }
            }
            assert forall|i: int, j: int|
                0 <= i < r.len() && 0 <= j < r.len() && i != j implies (#[trigger] r[i]).id != (
            #[trigger] r[j]).id by {
                if i < u.len() && j < u.len() {
                    assert(r[i] == u[i] && r[j] == u[j]);
                } else if i < u.len() {
                    assert(u[i].id != last.id);
                } else {
                    assert(u[j].id != last.id);
                }
            }
        }
    } else {
        assert forall|i: int| 0 <= i < r.len() implies (#[trigger] r[i]) == m || s.contains(
            r[i],
        ) by {
            if i < s.len() {
                assert(s[i] == r[i]);
            }
        }
        if ids_differ(s) && (forall|i: int| 0 <= i < s.len() ==> (#[trigger] s[i]).id != m.id) {
            assert forall|i: int, j: int|
                0 <= i < r.len() && 0 <= j < r.len() && i != j implies (#[trigger] r[i]).id != (
            #[trigger] r[j]).id by {
                if i < s.len() && j < s.len() {
                    assert(s[i].id != s[j].id);
                } else if i < s.len() {
                    assert(s[i].id != m.id);
                } else {
                    assert(s[j].id != m.id);
                }
            }
        }
    }
}

/// Sorting by time keeps ids distinct, and only what was there is there.
pub proof fn sorting_keeps_ids(s: Seq<Message>)
    ensures
        forall|i: int|
            0 <= i < time_sorted(s).len() ==> s.contains(#[trigger] time_sorted(s)[i]),
        ids_differ(s) ==> ids_differ(time_sorted(s)),
    decreases s.len(),
{
    if s.len() > 0 {
        let t = s.drop_last();
        let m = s.last();
        let q = time_sorted(t);
        let r = time_sorted(s);
        sorting_keeps_ids(t);
        placed_ids(q, m);
        assert forall|i: int| 0 <= i < r.len() implies s.contains(#[trigger] r[i]) by {
            if r[i] == m {
                assert(s[s.len() - 1] == r[i]);
            } else {
                let k = choose|k: int| 0 <= k < q.len() && q[k] == r[i];
                let l = choose|l: int| 0 <= l < t.len() && t[l] == q[k];
                assert(s[l] == r[i]);
            }
        }
        if ids_differ(s) {
            assert forall|i: int, j: int|
                0 <= i < t.len() && 0 <= j < t.len() && i != j implies (#[trigger] t[i]).id != (
            #[trigger] t[j]).id by {
                assert(s[i].id != s[j].id);
            }
            assert forall|i: int| 0 <= i < q.len() implies (#[trigger] q[i]).id != m.id by {
                let l = choose|l: int| 0 <= l < t.len() && t[l] == q[i];
                assert(s[l].id != s[s.len() - 1].id);
            }
        }
    }
}

fn place(v: &mut Vec<Message>, m: Message)
    ensures
        final(v)@ == placed(old(v)@, m),
    decreases old(v)@.len(),
{
    let n: usize = v.len();
    if n > 0 && v[n - 1].created_at > m.created_at {
        let last: Message = v.pop().unwrap();
        place(v, m);
        v.push(last);
    } else {
        v.push(m);
    }
}

/// Orders messages by time, equal times in the order they came.
pub fn sort_by_time(v: Vec<Message>) -> (r: Vec<Message>)
    ensures
        r@ == time_sorted(v@),
{
    let ghost all = v@;
    let mut rest: Vec<Message> = turned(v);
    let mut out: Vec<Message> = Vec::new();
    let ghost mut done: int = 0;
    assert(out@ =~= time_sorted(all.take(0)));
    while rest.len() > 0
        invariant
            0 <= done,
            done + rest@.len() == all.len(),
            rest@ == all.skip(done).reverse(),
            out@ == time_sorted(all.take(done)),
        decreases rest@.len(),
    {
        let m: Message = rest.pop().unwrap();
        proof {
            assert(m == all[done]);
            assert(rest@ =~= all.skip(done + 1).reverse());
            assert(all.take(done + 1).drop_last() =~= all.take(done));
        }
        place(&mut out, m);
        proof {
            done = done + 1;
        }
    }
    assert(all.take(done) =~= all);
    out
}

/// The messages with an identifier.
pub open spec fn message_is(id: Id) -> spec_fn(Message) -> bool {
    |m: Message| m.id == id
}

/// Held messages with those fetched that were not among them.
pub open spec fn with_missing(held: Seq<Message>, fetched: Seq<Message>) -> Seq<Message>
    decreases fetched.len(),
{
    if fetched.len() == 0 {
        held
    } else {
        let before = with_missing(held, fetched.drop_last());
        if any_where(before, message_is(fetched.last().id)) {
            before
        } else {
            before.push(fetched.last())
        }
    }
}

/// Whether a list holds a message.
pub fn holds_message(v: &Vec<Message>, id: Id) -> (r: bool)
    ensures
        r == any_where(v@, message_is(id)),
{
    let test = |m: &Message| -> (b: bool)
        ensures
            b == (m.id == id),
    {
        m.id == id
    };
    find_where(v, test, Ghost(message_is(id))).is_some()
}

/// Adds what was fetched to what is held, no message twice, in order of time.
pub fn merge_messages(held: Vec<Message>, fetched: Vec<Message>) -> (r: Vec<Message>)
    ensures
        r@ == time_sorted(with_missing(held@, fetched@)),
{
    let ghost all = fetched@;
    let ghost first = held@;
    let mut rest: Vec<Message> = turned(fetched);
    let mut out: Vec<Message> = held;
    let ghost mut done: int = 0;
    assert(all.take(0) =~= Seq::empty());
    while rest.len() > 0
        invariant
            0 <= done,
            done + rest@.len() == all.len(),
            rest@ == all.skip(done).reverse(),
            out@ == with_missing(first, all.take(done)),
        decreases rest@.len(),
    {
        let m: Message = rest.pop().unwrap();
        proof {
            assert(m == all[done]);
            assert(rest@ =~= all.skip(done + 1).reverse());
            assert(all.take(done + 1).drop_last() =~= all.take(done));
        }
        if !holds_message(&out, m.id) {
            out.push(m);
        }
        proof {
            done = done + 1;
        }
    }
    assert(all.take(done) =~= all);
    sort_by_time(out)
}

} // verus!
