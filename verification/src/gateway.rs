//! The session with a gateway: what each of its messages does to what the client
//! knows, and what has to be done in answer.

use crate::list::{
    any_where, find_where, first_where, group, grouped, keep_where, list_at, lists, push_at, put,
    put_found, put_missing, swap_where, swapped, turned, without_first, without_found,
    without_missing,
};
use crate::mediakey::{open, opened_blob, present_has};
use crate::protocol::{
    CatalogEntry, Channel, ClientMessage, EmojiBlob, Guild, GuildEmoji, Id, JoinGate, Member,
    Message, Profile, Reaction, Role, ServerMessage, User, VoiceCmd, VoiceState,
};
use crate::state::{
    AppState, ConnectionStatus, DmInfo, RulesPrompt, SelfVoice, VoicePhase, default_channel, dm_is,
    merge_messages, message_is, time_sorted, viewing, with_missing,
};
use crate::table::{IdTable, TextTable, as_map, keyed_once, map_at, map_only};
use crate::text::{opt_str, same, same_bytes, text_before, text_lt, text_lt_total, texts};
use vstd::prelude::*;
use vstd::string::*;

verus! {

/// What has to be done once a message was applied.
#[derive(Debug, PartialEq, Eq)]
pub enum Effect {
    Send(ClientMessage),
    Voice(VoiceCmd),
    /// Ask for the pictures that are named and not held.
    ResolveMedia,
    /// Find the proof of work and join with it.
    SolvePow { challenge: String, bits: u32, guild_id: Id, invite_code: Option<String> },
    /// Keep an emoji on disk.
    StoreEmoji { image: String, data_url: String },
    /// Encrypt the call with a key.
    ApplyKey { key: [u8; 32], epoch: u32 },
}

/// Asks for the latest messages of a channel.
pub open spec fn fetch(channel: Id) -> Effect {
    Effect::Send(ClientMessage::FetchMessages { channel_id: channel, limit: 50, before_ms: None })
}

/// Asks for a channel's messages when one is opened.
pub open spec fn fetched(channel: Option<Id>) -> Seq<Effect> {
    match channel {
        Some(c) => seq![fetch(c)],
        None => Seq::empty(),
    }
}

/// Asks for a channel's messages when one is opened that has none yet.
pub open spec fn fetched_new(channel: Option<Id>, messages: Map<Id, Vec<Message>>) -> Seq<Effect> {
    match channel {
        Some(c) => if messages.dom().contains(c) {
            Seq::empty()
        } else {
            seq![fetch(c)]
        },
        None => Seq::empty(),
    }
}

fn is_id(o: Option<Id>, id: Id) -> (r: bool)
    ensures
        r == (o == Some(id)),
{
    match o {
        Some(x) => x == id,
        None => false,
    }
}

fn push_fetch(effects: &mut Vec<Effect>, channel: Option<Id>)
    ensures
        final(effects)@ == old(effects)@ + fetched(channel),
{
    let ghost before = effects@;
    if let Some(channel_id) = channel {
        effects.push(
            Effect::Send(ClientMessage::FetchMessages { channel_id, limit: 50, before_ms: None }),
        );
    }
    assert(effects@ =~= before + fetched(channel));
}

fn push_fetch_new(effects: &mut Vec<Effect>, channel: Option<Id>, messages: &IdTable<Vec<Message>>)
    ensures
        final(effects)@ == old(effects)@ + fetched_new(channel, messages@),
{
    let ghost before = effects@;
    if let Some(channel_id) = channel {
        if !messages.contains(channel_id) {
            effects.push(
                Effect::Send(
                    ClientMessage::FetchMessages { channel_id, limit: 50, before_ms: None },
                ),
            );
        }
    }
    assert(effects@ =~= before + fetched_new(channel, messages@));
}

/// Profiles by the key they describe, a later one over an earlier.
pub open spec fn by_pubkey(profiles: Seq<Profile>) -> Seq<(Seq<char>, Profile)> {
    profiles.map_values(|p: Profile| (p.pubkey@, p))
}

pub open spec fn role_guild() -> spec_fn(Role) -> Id {
    |r: Role| r.guild_id
}

pub open spec fn emoji_guild() -> spec_fn(GuildEmoji) -> Id {
    |e: GuildEmoji| e.guild_id
}

fn profile_table(profiles: Vec<Profile>) -> (r: TextTable<Profile>)
    ensures
        r@ == as_map(by_pubkey(profiles@)),
{
    let ghost all = profiles@;
    let mut rest: Vec<Profile> = turned(profiles);
    let mut out: TextTable<Profile> = TextTable::new();
    let ghost mut done: int = 0;
    assert(by_pubkey(all.take(0)) =~= Seq::empty());
    while rest.len() > 0
        invariant
            0 <= done,
            done + rest@.len() == all.len(),
            rest@ == all.skip(done).reverse(),
            out@ == as_map(by_pubkey(all.take(done))),
        decreases rest@.len(),
    {
        let p: Profile = rest.pop().unwrap();
        proof {
            assert(p == all[done]);
            assert(rest@ =~= all.skip(done + 1).reverse());
            assert(by_pubkey(all.take(done + 1)).drop_last() =~= by_pubkey(all.take(done)));
            assert(by_pubkey(all.take(done + 1)).last() == (p.pubkey@, p));
        }
        out.insert(p.pubkey.clone(), p);
        proof {
            done = done + 1;
        }
    }
    assert(all.take(done) =~= all);
    out
}

/// A session begins: everything the gateway listed replaces what was known, and
/// the first guild is opened on its first text channel.
pub open spec fn ready(
    o: AppState,
    user: User,
    guilds: Seq<Guild>,
    channels: Seq<Channel>,
    members: Seq<Member>,
    voice_states: Seq<VoiceState>,
    catalog: Seq<CatalogEntry>,
    profiles: Seq<Profile>,
    roles: Seq<Role>,
    emojis: Seq<GuildEmoji>,
    operator: bool,
    n: AppState,
    e: Seq<Effect>,
) -> bool {
    let opened = default_channel(channels, guilds[0].id);
    &&& n == (AppState {
        self_user: Some(user),
        is_operator: operator,
        guilds: n.guilds,
        channels: n.channels,
        members: n.members,
        voice_states: n.voice_states,
        dm_mode: false,
        catalog: n.catalog,
        profiles: n.profiles,
        roles: n.roles,
        guild_emojis: n.guild_emojis,
        messages: n.messages,
        emoji_requested: n.emoji_requested,
        screen_shares: n.screen_shares,
        screen_viewing: None,
        status: ConnectionStatus::Ready,
        selected_guild: if guilds.len() > 0 {
            Some(guilds[0].id)
        } else {
            o.selected_guild
        },
        selected_channel: if guilds.len() > 0 {
            opened
        } else {
            o.selected_channel
        },
        ..o
    })
    &&& n.guilds@ == guilds && n.channels@ == channels && n.members@ == members
    &&& n.voice_states@ == voice_states && n.catalog@ == catalog
    &&& n.profiles@ == as_map(by_pubkey(profiles))
    &&& lists(n.roles@) == grouped(roles, role_guild())
    &&& lists(n.guild_emojis@) == grouped(emojis, emoji_guild())
    &&& n.messages@ == Map::<Id, Vec<Message>>::empty()
    &&& n.emoji_requested@ == Map::<Seq<char>, u64>::empty()
    &&& n.screen_shares@ == Map::<Id, Vec<String>>::empty()
    &&& e == seq![Effect::ResolveMedia] + if guilds.len() > 0 {
        fetched(opened)
    } else {
        Seq::empty()
    }
}

fn on_ready(
    s: &mut AppState,
    user: User,
    guilds: Vec<Guild>,
    channels: Vec<Channel>,
    members: Vec<Member>,
    voice_states: Vec<VoiceState>,
    catalog: Vec<CatalogEntry>,
    profiles: Vec<Profile>,
    roles: Vec<Role>,
    emojis: Vec<GuildEmoji>,
    operator: bool,
) -> (r: Vec<Effect>)
    ensures
        ready(
            *old(s),
            user,
            guilds@,
            channels@,
            members@,
            voice_states@,
            catalog@,
            profiles@,
            roles@,
            emojis@,
            operator,
            *final(s),
            r@,
        ),
{
    let role_key = |x: &Role| -> (id: Id)
        ensures
            id == x.guild_id,
    {
        x.guild_id
    };
    let emoji_key = |x: &GuildEmoji| -> (id: Id)
        ensures
            id == x.guild_id,
    {
        x.guild_id
    };
    let mut effects: Vec<Effect> = Vec::new();
    s.self_user = Some(user);
    s.is_operator = operator;
    s.guilds = guilds;
    s.channels = channels;
    s.members = members;
    s.voice_states = voice_states;
    s.dm_mode = false;
    s.catalog = catalog;
    s.profiles = profile_table(profiles);
    s.roles = group(roles, role_key, Ghost(role_guild()));
    s.guild_emojis = group(emojis, emoji_key, Ghost(emoji_guild()));
    s.messages = IdTable::new();
    s.emoji_requested = TextTable::new();
    effects.push(Effect::ResolveMedia);
    s.screen_shares = IdTable::new();
    s.screen_viewing = None;
    s.status = ConnectionStatus::Ready;
    assert(effects@ =~= seq![Effect::ResolveMedia]);
    if s.guilds.len() > 0 {
        let first: Id = s.guilds[0].id;
        s.selected_guild = Some(first);
        let channel: Option<Id> = s.default_channel_of(first);
        s.selected_channel = channel;
        push_fetch(&mut effects, channel);
    }
    effects
}

/// Messages of the past arrive.
pub open spec fn history(
    o: AppState,
    channel_id: Id,
    messages: Seq<Message>,
    n: AppState,
    e: Seq<Effect>,
) -> bool {
    &&& n == (AppState { messages: n.messages, ..o })
    &&& lists(n.messages@) == lists(o.messages@).insert(
        channel_id,
        time_sorted(with_missing(list_at(lists(o.messages@), channel_id), messages)),
    )
    &&& e == seq![Effect::ResolveMedia]
}

fn on_history(s: &mut AppState, channel_id: Id, messages: Vec<Message>) -> (r: Vec<Effect>)
    ensures
        history(*old(s), channel_id, messages@, *final(s), r@),
{
    let ghost before = s.messages@;
    let held: Vec<Message> = match s.messages.remove(channel_id) {
        Some(held) => held,
        None => Vec::new(),
    };
    assert(held@ =~= list_at(lists(before), channel_id));
    let merged: Vec<Message> = merge_messages(held, messages);
    s.messages.insert(channel_id, merged);
    assert(lists(s.messages@) =~= lists(before).insert(channel_id, merged@));
    let mut effects: Vec<Effect> = Vec::new();
    effects.push(Effect::ResolveMedia);
    assert(effects@ =~= seq![Effect::ResolveMedia]);
    effects
}

/// The channel with an identifier.
pub open spec fn channel_is(id: Id) -> spec_fn(Channel) -> bool {
    |c: Channel| c.id == id
}

/// The guild with an identifier.
pub open spec fn guild_is(id: Id) -> spec_fn(Guild) -> bool {
    |g: Guild| g.id == id
}

fn has_channel(v: &Vec<Channel>, id: Id) -> (r: bool)
    ensures
        r == any_where(v@, channel_is(id)),
{
    let test = |c: &Channel| -> (b: bool)
        ensures
            b == (c.id == id),
    {
        c.id == id
    };
    find_where(v, test, Ghost(channel_is(id))).is_some()
}

/// A message arrives: it is shown, its author no longer types, and where it is a
/// direct message of somebody else that is not on screen it counts as unread.
pub open spec fn message_created(o: AppState, m: Message, n: AppState, e: Seq<Effect>) -> bool {
    let cid = m.channel_id;
    let is_dm = !any_where(o.channels@, channel_is(cid));
    let ours = o.self_user is Some && o.self_user->Some_0.pubkey@ == m.author.pubkey@;
    let seen = viewing(o, cid, is_dm);
    &&& n == (AppState {
        dms: n.dms,
        typing: n.typing,
        messages: n.messages,
        dm_unread: n.dm_unread,
        notify_tick: if !ours && !seen {
            o.notify_tick.wrapping_add(1)
        } else {
            o.notify_tick
        },
        ..o
    })
    &&& if is_dm && !any_where(o.dms@, dm_is(cid)) {
        n.dms@ == o.dms@.push(DmInfo { channel_id: cid, other_pubkey: m.author.pubkey })
    } else {
        n.dms@ == o.dms@
    }
    &&& n.typing@.dom() == o.typing@.dom()
    &&& forall|k: Id| k != cid && #[trigger] o.typing@.dom().contains(k) ==> n.typing@[k]
        == o.typing@[k]
    &&& o.typing@.dom().contains(cid) ==> n.typing@[cid]@ == o.typing@[cid]@.remove(
        m.author.pubkey@,
    )
    &&& lists(n.messages@) == lists(o.messages@).insert(
        cid,
        list_at(lists(o.messages@), cid).push(m),
    )
    &&& n.dm_unread@ == if is_dm && !ours && !seen {
        o.dm_unread@.insert(cid, one_more(o.dm_unread@, cid))
    } else {
        o.dm_unread@
    }
    &&& e == if m.image is Some {
        seq![Effect::ResolveMedia]
    } else {
        Seq::empty()
    }
}

/// A count one higher, unless it can go no higher.
pub open spec fn one_more(counts: Map<Id, u64>, k: Id) -> u64 {
    if !counts.dom().contains(k) {
        1
    } else if counts[k] == u64::MAX {
        u64::MAX
    } else {
        (counts[k] + 1) as u64
    }
}

#[verifier::rlimit(60)]
fn on_message_create(s: &mut AppState, m: Message) -> (r: Vec<Effect>)
    ensures
        message_created(*old(s), m, *final(s), r@),
{
    let ghost o = *s;
    let cid: Id = m.channel_id;
    let is_dm: bool = !has_channel(&s.channels, cid);
    if is_dm && !s.has_dm(cid) {
        s.dms.push(DmInfo { channel_id: cid, other_pubkey: m.author.pubkey.clone() });
    }
    let author_is_self: bool = s.is_self(m.author.pubkey.as_str());
    let on_screen: bool = is_id(s.selected_channel, cid) && is_dm == s.dm_mode;
    if let Some(set) = s.typing.remove(cid) {
        let mut set: TextTable<(String, u64)> = set;
        let _ = set.remove(m.author.pubkey.as_str());
        s.typing.insert(cid, set);
    }
    proof {
        assert(s.typing@.dom() =~= o.typing@.dom());
    }
    let has_image: bool = m.image.is_some();
    push_at(&mut s.messages, cid, m);
    if is_dm && !author_is_self && !on_screen {
        let count: u64 = match s.dm_unread.get(cid) {
            Some(c) => if *c == u64::MAX {
                u64::MAX
            } else {
                *c + 1
            },
            None => 1,
        };
        s.dm_unread.insert(cid, count);
    }
    if s.should_ring(author_is_self, on_screen) {
        s.notify_tick = s.notify_tick.wrapping_add(1);
    }
    let mut effects: Vec<Effect> = Vec::new();
    if has_image {
        effects.push(Effect::ResolveMedia);
    }
    assert(effects@ =~= if m.image is Some {
        seq![Effect::ResolveMedia]
    } else {
        Seq::empty()
    });
    effects
}

/// The entry of the same person in the same guild.
pub open spec fn same_member(guild: Id, pubkey: Seq<char>) -> spec_fn(Member) -> bool {
    |x: Member| x.guild_id == guild && x.user.pubkey@ == pubkey
}

/// Members with one put in its place.
pub open spec fn member_put(s: Seq<Member>, m: Member) -> Seq<Member> {
    put(s, same_member(m.guild_id, m.user.pubkey@), m)
}

fn find_member(v: &Vec<Member>, guild: Id, pubkey: &str) -> (r: Option<usize>)
    ensures
        match r {
            Some(i) => first_where(v@, same_member(guild, pubkey@), i as int),
            None => !any_where(v@, same_member(guild, pubkey@)),
        },
{
    let test = |x: &Member| -> (b: bool)
        ensures
            b == (x.guild_id == guild && x.user.pubkey@ == pubkey@),
    {
        x.guild_id == guild && same(x.user.pubkey.as_str(), pubkey)
    };
    find_where(v, test, Ghost(same_member(guild, pubkey@)))
}

fn put_member(v: &mut Vec<Member>, m: Member)
    ensures
        final(v)@ == member_put(old(v)@, m),
{
    let ghost p = same_member(m.guild_id, m.user.pubkey@);
    match find_member(v, m.guild_id, m.user.pubkey.as_str()) {
        Some(i) => {
            proof {
                put_found(v@, p, m, i as int);
            }
            v[i] = m;
        },
        None => {
            proof {
                put_missing(v@, p, m);
            }
            v.push(m);
        },
    }
}

/// Members with several put in their places, one after the other.
pub open spec fn members_put(s: Seq<Member>, new: Seq<Member>) -> Seq<Member>
    decreases new.len(),
{
    if new.len() == 0 {
        s
    } else {
        member_put(members_put(s, new.drop_last()), new.last())
    }
}

/// Channels with those added that were missing.
pub open spec fn channels_added(s: Seq<Channel>, new: Seq<Channel>) -> Seq<Channel>
    decreases new.len(),
{
    if new.len() == 0 {
        s
    } else {
        let before = channels_added(s, new.drop_last());
        if any_where(before, channel_is(new.last().id)) {
            before
        } else {
            before.push(new.last())
        }
    }
}

fn put_members(v: &mut Vec<Member>, new: Vec<Member>)
    ensures
        final(v)@ == members_put(old(v)@, new@),
{
    let ghost all = new@;
    let ghost first = v@;
    let mut rest: Vec<Member> = turned(new);
    let ghost mut done: int = 0;
    assert(all.take(0) =~= Seq::empty());
    while rest.len() > 0
        invariant
            0 <= done,
            done + rest@.len() == all.len(),
            rest@ == all.skip(done).reverse(),
            v@ == members_put(first, all.take(done)),
        decreases rest@.len(),
    {
        let m: Member = rest.pop().unwrap();
        proof {
            assert(m == all[done]);
            assert(rest@ =~= all.skip(done + 1).reverse());
            assert(all.take(done + 1).drop_last() =~= all.take(done));
        }
        put_member(v, m);
        proof {
            done = done + 1;
        }
    }
    assert(all.take(done) =~= all);
}

fn add_channels(v: &mut Vec<Channel>, new: Vec<Channel>)
    ensures
        final(v)@ == channels_added(old(v)@, new@),
{
    let ghost all = new@;
    let ghost first = v@;
    let mut rest: Vec<Channel> = turned(new);
    let ghost mut done: int = 0;
    assert(all.take(0) =~= Seq::empty());
    while rest.len() > 0
        invariant
            0 <= done,
            done + rest@.len() == all.len(),
            rest@ == all.skip(done).reverse(),
            v@ == channels_added(first, all.take(done)),
        decreases rest@.len(),
    {
        let c: Channel = rest.pop().unwrap();
        proof {
            assert(c == all[done]);
            assert(rest@ =~= all.skip(done + 1).reverse());
            assert(all.take(done + 1).drop_last() =~= all.take(done));
        }
        if !has_channel(v, c.id) {
            v.push(c);
        }
        proof {
            done = done + 1;
        }
    }
    assert(all.take(done) =~= all);
}

/// The states of a guild's calls.
pub open spec fn voice_elsewhere(guild: Id) -> spec_fn(VoiceState) -> bool {
    |v: VoiceState| v.guild_id != guild
}

/// A guild was joined: it is listed with everything in it, and opened.
pub open spec fn guild_joined(
    o: AppState,
    guild: Guild,
    channels: Seq<Channel>,
    members: Seq<Member>,
    roles: Vec<Role>,
    emojis: Vec<GuildEmoji>,
    voice_states: Seq<VoiceState>,
    n: AppState,
    e: Seq<Effect>,
) -> bool {
    let gid = guild.id;
    &&& n == (AppState {
        guilds: n.guilds,
        roles: n.roles,
        guild_emojis: n.guild_emojis,
        voice_states: n.voice_states,
        channels: n.channels,
        members: n.members,
        dm_mode: false,
        selected_guild: Some(gid),
        selected_channel: default_channel(n.channels@, gid),
        ..o
    })
    &&& n.guilds@ == if any_where(o.guilds@, guild_is(gid)) {
        o.guilds@
    } else {
        o.guilds@.push(guild)
    }
    &&& n.roles@ == o.roles@.insert(gid, roles)
    &&& n.guild_emojis@ == o.guild_emojis@.insert(gid, emojis)
    &&& n.voice_states@ == o.voice_states@.filter(voice_elsewhere(gid)) + voice_states
    &&& n.channels@ == channels_added(o.channels@, channels)
    &&& n.members@ == members_put(o.members@, members)
    &&& e == seq![Effect::ResolveMedia] + fetched_new(n.selected_channel, o.messages@)
}

fn on_guild_joined(
    s: &mut AppState,
    guild: Guild,
    channels: Vec<Channel>,
    members: Vec<Member>,
    roles: Vec<Role>,
    emojis: Vec<GuildEmoji>,
    voice_states: Vec<VoiceState>,
) -> (r: Vec<Effect>)
    ensures
        guild_joined(
            *old(s),
            guild,
            channels@,
            members@,
            roles,
            emojis,
            voice_states@,
            *final(s),
            r@,
        ),
{
    let gid: Id = guild.id;
    let known = |g: &Guild| -> (b: bool)
        ensures
            b == (g.id == gid),
    {
        g.id == gid
    };
    if find_where(&s.guilds, known, Ghost(guild_is(gid))).is_none() {
        s.guilds.push(guild);
    }
    s.roles.insert(gid, roles);
    s.guild_emojis.insert(gid, emojis);
    let elsewhere = |v: &VoiceState| -> (b: bool)
        ensures
            b == (v.guild_id != gid),
    {
        v.guild_id != gid
    };
    keep_where(&mut s.voice_states, elsewhere, Ghost(voice_elsewhere(gid)));
    let mut arrived: Vec<VoiceState> = voice_states;
    s.voice_states.append(&mut arrived);
    add_channels(&mut s.channels, channels);
    put_members(&mut s.members, members);
    s.dm_mode = false;
    s.selected_guild = Some(gid);
    let first_text: Option<Id> = s.default_channel_of(gid);
    s.selected_channel = first_text;
    let mut effects: Vec<Effect> = Vec::new();
    effects.push(Effect::ResolveMedia);
    assert(effects@ =~= seq![Effect::ResolveMedia]);
    push_fetch_new(&mut effects, first_text, &s.messages);
    effects
}

/// The public guilds arrive, a page at a time.
pub open spec fn catalog_page(
    o: AppState,
    guilds: Seq<CatalogEntry>,
    offset: u64,
    total: u64,
    n: AppState,
) -> bool {
    &&& n == (AppState { catalog: n.catalog, catalog_total: total, ..o })
    &&& n.catalog@ == if offset == 0 {
        guilds
    } else {
        o.catalog@ + guilds
    }
}

fn on_catalog(s: &mut AppState, guilds: Vec<CatalogEntry>, offset: u64, total: u64)
    ensures
        catalog_page(*old(s), guilds@, offset, total, *final(s)),
{
    if offset == 0 {
        s.catalog = guilds;
    } else {
        let mut page: Vec<CatalogEntry> = guilds;
        s.catalog.append(&mut page);
    }
    s.catalog_total = total;
}

/// Whether a channel of a guild has an identifier.
pub open spec fn in_guild(channels: Seq<Channel>, guild: Id, id: Id) -> bool {
    exists|i: int| 0 <= i < channels.len() && (#[trigger] channels[i]).guild_id == guild
        && channels[i].id == id
}

/// The identifiers of a guild's channels.
pub open spec fn guild_channels(channels: Seq<Channel>, guild: Id) -> Set<Id> {
    Set::new(|id: Id| in_guild(channels, guild, id))
}

pub open spec fn guild_not(id: Id) -> spec_fn(Guild) -> bool {
    |g: Guild| g.id != id
}

pub open spec fn channel_elsewhere(guild: Id) -> spec_fn(Channel) -> bool {
    |c: Channel| c.guild_id != guild
}

pub open spec fn member_elsewhere(guild: Id) -> spec_fn(Member) -> bool {
    |m: Member| m.guild_id != guild
}

/// A guild is gone, with everything in it. If it was open, the first that is left
/// is opened.
pub open spec fn guild_deleted(o: AppState, guild_id: Id, n: AppState, e: Seq<Effect>) -> bool {
    let next: Option<Id> = if n.guilds@.len() > 0 {
        Some(n.guilds@[0].id)
    } else {
        None
    };
    let opened = match next {
        Some(g) => default_channel(n.channels@, g),
        None => None,
    };
    &&& n == (AppState {
        guilds: n.guilds,
        channels: n.channels,
        members: n.members,
        roles: n.roles,
        bans: n.bans,
        invites: n.invites,
        integrations: n.integrations,
        messages: n.messages,
        selected_guild: if o.selected_guild == Some(guild_id) {
            next
        } else {
            o.selected_guild
        },
        selected_channel: if o.selected_guild == Some(guild_id) {
            opened
        } else {
            o.selected_channel
        },
        ..o
    })
    &&& n.guilds@ == o.guilds@.filter(guild_not(guild_id))
    &&& n.channels@ == o.channels@.filter(channel_elsewhere(guild_id))
    &&& n.members@ == o.members@.filter(member_elsewhere(guild_id))
    &&& n.roles@ == o.roles@.remove(guild_id)
    &&& n.bans@ == o.bans@.remove(guild_id)
    &&& n.invites@ == o.invites@.remove(guild_id)
    &&& n.integrations@ == o.integrations@.remove(guild_id)
    &&& n.messages@ == o.messages@.remove_keys(guild_channels(o.channels@, guild_id))
    &&& e == if o.selected_guild == Some(guild_id) {
        fetched_new(opened, n.messages@)
    } else {
        Seq::empty()
    }
}

/// Drops the messages of a guild's channels.
fn drop_guild_messages(messages: &mut IdTable<Vec<Message>>, channels: &Vec<Channel>, guild: Id)
    ensures
        final(messages)@ == old(messages)@.remove_keys(guild_channels(channels@, guild)),
{
    let ghost before = messages@;
    let mut i: usize = 0;
    assert(before =~= before.remove_keys(guild_channels(channels@.take(0), guild)));
    while i < channels.len()
        invariant
            i <= channels@.len(),
            messages@ == before.remove_keys(guild_channels(channels@.take(i as int), guild)),
        decreases channels@.len() - i,
    {
        let ghost part = channels@.take(i as int);
        let ghost more = channels@.take(i + 1);
        let ghost gone = messages@;
        if channels[i].guild_id == guild {
            let _ = messages.remove(channels[i].id);
        }
        proof {
            assert forall|id: Id|
                in_guild(more, guild, id) == (in_guild(part, guild, id) || (
                channels@[i as int].guild_id == guild && channels@[i as int].id == id)) by {
                if in_guild(part, guild, id) {
                    let k = choose|k: int|
                        0 <= k < part.len() && (#[trigger] part[k]).guild_id == guild && part[k].id
                            == id;
                    assert(more[k].guild_id == guild);
                }
                if channels@[i as int].guild_id == guild && channels@[i as int].id == id {
                    assert(more[i as int].guild_id == guild);
                }
                if in_guild(more, guild, id) {
                    let k = choose|k: int|
                        0 <= k < more.len() && (#[trigger] more[k]).guild_id == guild && more[k].id
                            == id;
                    if k < i {
                        assert(part[k].guild_id == guild);
                    }
                }
            }
            assert(messages@ =~= before.remove_keys(guild_channels(more, guild)));
        }
        i = i + 1;
    }
    assert(channels@.take(i as int) =~= channels@);
}

fn on_guild_delete(s: &mut AppState, guild_id: Id) -> (r: Vec<Effect>)
    ensures
        guild_deleted(*old(s), guild_id, *final(s), r@),
{
    let other_guild = |g: &Guild| -> (b: bool)
        ensures
            b == (g.id != guild_id),
    {
        g.id != guild_id
    };
    let other_channel = |c: &Channel| -> (b: bool)
        ensures
            b == (c.guild_id != guild_id),
    {
        c.guild_id != guild_id
    };
    let other_member = |m: &Member| -> (b: bool)
        ensures
            b == (m.guild_id != guild_id),
    {
        m.guild_id != guild_id
    };
    keep_where(&mut s.guilds, other_guild, Ghost(guild_not(guild_id)));
    drop_guild_messages(&mut s.messages, &s.channels, guild_id);
    keep_where(&mut s.channels, other_channel, Ghost(channel_elsewhere(guild_id)));
    keep_where(&mut s.members, other_member, Ghost(member_elsewhere(guild_id)));
    let _ = s.roles.remove(guild_id);
    let _ = s.bans.remove(guild_id);
    let _ = s.invites.remove(guild_id);
    let _ = s.integrations.remove(guild_id);
    let mut effects: Vec<Effect> = Vec::new();
    if is_id(s.selected_guild, guild_id) {
        let next: Option<Id> = if s.guilds.len() > 0 {
            Some(s.guilds[0].id)
        } else {
            None
        };
        s.selected_guild = next;
        let opened: Option<Id> = match next {
            Some(g) => s.default_channel_of(g),
            None => None,
        };
        s.selected_channel = opened;
        push_fetch_new(&mut effects, opened, &s.messages);
        assert(effects@ =~= fetched_new(opened, s.messages@));
    }
    assert(effects@ =~= if old(s).selected_guild == Some(guild_id) {
        fetched_new(s.selected_channel, s.messages@)
    } else {
        Seq::empty()
    });
    effects
}

/// The reactions of one message are replaced.
pub open spec fn reacted(
    o: AppState,
    channel_id: Id,
    message_id: Id,
    reactions: Vec<Reaction>,
    n: AppState,
) -> bool {
    &&& n == (AppState { messages: n.messages, ..o })
    &&& n.messages@.dom() == o.messages@.dom()
    &&& forall|k: Id| k != channel_id && #[trigger] o.messages@.dom().contains(k) ==> n.messages@[k]
        == o.messages@[k]
    &&& o.messages@.dom().contains(channel_id) ==> {
        let before = o.messages@[channel_id]@;
        let after = n.messages@[channel_id]@;
        &&& !any_where(before, message_is(message_id)) ==> after == before
        &&& forall|i: int| #[trigger]
            first_where(before, message_is(message_id), i) ==> after == before.update(
                i,
                Message { reactions, ..before[i] },
            )
    }
}

fn on_reaction(s: &mut AppState, channel_id: Id, message_id: Id, reactions: Vec<Reaction>)
    ensures
        reacted(*old(s), channel_id, message_id, reactions, *final(s)),
{
    let ghost o = *s;
    let mut list: Vec<Message> = match s.messages.remove(channel_id) {
        Some(list) => list,
        None => {
            assert(s.messages@ =~= o.messages@);
            return ;
        },
    };
    let test = |m: &Message| -> (b: bool)
        ensures
            b == (m.id == message_id),
    {
        m.id == message_id
    };
    let ghost before = list@;
    match find_where(&list, test, Ghost(message_is(message_id))) {
        Some(i) => {
            let mut tail: Vec<Message> = list.split_off(i);
            let mut rest: Vec<Message> = tail.split_off(1);
            let m: Message = tail.pop().unwrap();
            let changed: Message = Message {
                id: m.id,
                channel_id: m.channel_id,
                author: m.author,
                content: m.content,
                image: m.image,
                reactions,
                reply_to: m.reply_to,
                created_at: m.created_at,
            };
            list.push(changed);
            list.append(&mut rest);
            assert(list@ =~= before.update(i as int, Message { reactions, ..before[i as int] }));
            assert forall|k: int| #[trigger]
                first_where(before, message_is(message_id), k) implies k == i by {
                if k < i {
                    assert(!message_is(message_id)(before[k]));
                } else if i < k {
                    assert(!message_is(message_id)(before[i as int]));
                }
            }
        },
        None => {
            assert forall|k: int| #[trigger]
                first_where(before, message_is(message_id), k) implies false by {
                assert(message_is(message_id)(before[k]));
            }
        },
    }
    s.messages.insert(channel_id, list);
    assert(s.messages@.dom() =~= o.messages@.dom());
}

/// Somebody types.
pub open spec fn typed(
    o: AppState,
    channel_id: Id,
    pubkey: Seq<char>,
    username: String,
    now: u64,
    n: AppState,
) -> bool {
    &&& n == (AppState { typing: n.typing, ..o })
    &&& n.typing@.dom() == o.typing@.dom().insert(channel_id)
    &&& forall|k: Id| k != channel_id && #[trigger] o.typing@.dom().contains(k) ==> n.typing@[k]
        == o.typing@[k]
    &&& n.typing@[channel_id]@ == (if o.typing@.dom().contains(channel_id) {
        o.typing@[channel_id]@
    } else {
        Map::empty()
    }).insert(pubkey, (username, now))
}

fn on_typing(s: &mut AppState, channel_id: Id, user_pubkey: String, username: String, now: u64)
    ensures
        typed(*old(s), channel_id, user_pubkey@, username, now, *final(s)),
{
    let ghost o = *s;
    let mut set: TextTable<(String, u64)> = match s.typing.remove(channel_id) {
        Some(set) => set,
        None => TextTable::new(),
    };
    set.insert(user_pubkey, (username, now));
    s.typing.insert(channel_id, set);
    assert(s.typing@.dom() =~= o.typing@.dom().insert(channel_id));
}

/// Whether an address is a guild's emoji.
pub open spec fn is_emoji(emojis: Map<Id, Vec<GuildEmoji>>, image: Seq<char>) -> bool {
    exists|k: Id, i: int|
        emojis.dom().contains(k) && 0 <= i < emojis[k]@.len() && (
        #[trigger] emojis[k]@[i]).image@ == image
}

/// The addresses of the emojis that entries hold, in their order.
pub open spec fn emoji_seq(list: Seq<(Id, Vec<GuildEmoji>)>) -> Seq<Seq<char>>
    decreases list.len(),
{
    if list.len() == 0 {
        Seq::empty()
    } else {
        emoji_seq(list.drop_last()) + list.last().1@.map_values(|e: GuildEmoji| e.image@)
    }
}

/// The addresses of all emojis of all guilds.
pub fn emoji_addresses(s: &AppState) -> (r: Vec<String>)
    ensures
        texts(r@) == emoji_seq(s.guild_emojis.list()),
{
    let mut out: Vec<String> = Vec::new();
    let n: usize = s.guild_emojis.len();
    let ghost list = s.guild_emojis.list();
    let mut i: usize = 0;
    assert(list.take(0) =~= Seq::empty());
    assert(texts(out@) =~= Seq::empty());
    while i < n
        invariant
            i <= n,
            n == list.len(),
            list == s.guild_emojis.list(),
            texts(out@) == emoji_seq(list.take(i as int)),
        decreases n - i,
    {
        let emojis: &Vec<GuildEmoji> = &s.guild_emojis.entry(i).1;
        let ghost before = texts(out@);
        let ghost images = emojis@.map_values(|e: GuildEmoji| e.image@);
        let mut j: usize = 0;
        assert(images.take(0) =~= Seq::empty());
        while j < emojis.len()
            invariant
                j <= emojis@.len(),
                images == emojis@.map_values(|e: GuildEmoji| e.image@),
                texts(out@) =~= before + images.take(j as int),
            decreases emojis@.len() - j,
        {
            let ghost was = out@;
            out.push(emojis[j].image.clone());
            assert(texts(out@) =~= texts(was).push(images[j as int]));
            assert(images.take(j + 1) =~= images.take(j as int).push(images[j as int]));
            j = j + 1;
        }
        assert(images.take(j as int) =~= images);
        assert(list.take(i + 1).drop_last() =~= list.take(i as int));
        i = i + 1;
    }
    assert(list.take(n as int) =~= list);
    out
}

/// Whether an address is among the emojis.
pub fn is_emoji_address(s: &AppState, image: &str) -> (r: bool)
    ensures
        r == is_emoji(s.guild_emojis@, image@),
{
    let n: usize = s.guild_emojis.len();
    let ghost list = s.guild_emojis.list();
    let ghost map = s.guild_emojis@;
    let mut i: usize = 0;
    while i < n
        invariant
            i <= n,
            n == list.len(),
            list == s.guild_emojis.list(),
            keyed_once(list),
            map == s.guild_emojis@,
            as_map(list) == map,
            forall|a: int, b: int|
                0 <= a < i && 0 <= b < list[a].1@.len() ==> (#[trigger] list[a].1@[b]).image@
                    != image@,
        decreases n - i,
    {
        let emojis: &Vec<GuildEmoji> = &s.guild_emojis.entry(i).1;
        let mut j: usize = 0;
        while j < emojis.len()
            invariant
                i < n,
                n == list.len(),
                list == s.guild_emojis.list(),
                keyed_once(list),
                map == s.guild_emojis@,
                as_map(list) == map,
                *emojis == list[i as int].1,
                j <= emojis@.len(),
                forall|b: int| 0 <= b < j ==> (#[trigger] emojis@[b]).image@ != image@,
            decreases emojis@.len() - j,
        {
            if same(emojis[j].image.as_str(), image) {
                proof {
                    map_at(list, i as int);
                    assert(map[list[i as int].0]@[j as int].image@ == image@);
                }
                return true;
            }
            j = j + 1;
        }
        i = i + 1;
    }
    proof {
        if is_emoji(map, image@) {
            let (k, b) = choose|k: Id, b: int|
                map.dom().contains(k) && 0 <= b < map[k]@.len() && (
                #[trigger] map[k]@[b]).image@ == image@;
            let a = map_only(list, k);
            map_at(list, a);
            assert(list[a].1@[b].image@ != image@);
        }
    }
    false
}

/// What is kept on disk of pictures that arrived.
pub open spec fn stored(emojis: Map<Id, Vec<GuildEmoji>>, blobs: Seq<EmojiBlob>) -> Seq<Effect>
    decreases blobs.len(),
{
    if blobs.len() == 0 {
        Seq::empty()
    } else {
        let before = stored(emojis, blobs.drop_last());
        let b = blobs.last();
        if b.data_url@.len() > 0 && is_emoji(emojis, b.image@) {
            before.push(Effect::StoreEmoji { image: b.image, data_url: b.data_url })
        } else {
            before
        }
    }
}

/// The pictures held once some arrived.
pub open spec fn images_with(images: Map<Seq<char>, String>, blobs: Seq<EmojiBlob>) -> Map<
    Seq<char>,
    String,
>
    decreases blobs.len(),
{
    if blobs.len() == 0 {
        images
    } else {
        images_with(images, blobs.drop_last()).insert(blobs.last().image@, blobs.last().data_url)
    }
}

/// The requests still open once some pictures arrived.
pub open spec fn requests_left(asked: Map<Seq<char>, u64>, blobs: Seq<EmojiBlob>) -> Map<
    Seq<char>,
    u64,
>
    decreases blobs.len(),
{
    if blobs.len() == 0 {
        asked
    } else {
        requests_left(asked, blobs.drop_last()).remove(blobs.last().image@)
    }
}

/// Pictures arrive. Only emojis are kept on disk.
pub open spec fn blobs_arrived(
    o: AppState,
    blobs: Seq<EmojiBlob>,
    n: AppState,
    e: Seq<Effect>,
) -> bool {
    &&& n == (AppState {
        emoji_images: n.emoji_images,
        emoji_requested: n.emoji_requested,
        ..o
    })
    &&& n.emoji_images@ == images_with(o.emoji_images@, blobs)
    &&& n.emoji_requested@ == requests_left(o.emoji_requested@, blobs)
    &&& e == stored(o.guild_emojis@, blobs)
}

fn on_blobs(s: &mut AppState, blobs: Vec<EmojiBlob>) -> (r: Vec<Effect>)
    ensures
        blobs_arrived(*old(s), blobs@, *final(s), r@),
{
    let ghost o = *s;
    let ghost all = blobs@;
    let mut rest: Vec<EmojiBlob> = turned(blobs);
    let mut effects: Vec<Effect> = Vec::new();
    let ghost mut done: int = 0;
    assert(all.take(0) =~= Seq::empty());
    assert(effects@ =~= Seq::empty());
    while rest.len() > 0
        invariant
            0 <= done,
            done + rest@.len() == all.len(),
            rest@ == all.skip(done).reverse(),
            *s == (AppState {
                emoji_images: s.emoji_images,
                emoji_requested: s.emoji_requested,
                ..o
            }),
            s.emoji_images@ == images_with(o.emoji_images@, all.take(done)),
            s.emoji_requested@ == requests_left(o.emoji_requested@, all.take(done)),
            effects@ == stored(o.guild_emojis@, all.take(done)),
        decreases rest@.len(),
    {
        let blob: EmojiBlob = rest.pop().unwrap();
        proof {
            assert(blob == all[done]);
            assert(rest@ =~= all.skip(done + 1).reverse());
            assert(all.take(done + 1).drop_last() =~= all.take(done));
        }
        if blob.data_url.as_str().unicode_len() > 0 && is_emoji_address(s, blob.image.as_str()) {
            effects.push(
                Effect::StoreEmoji { image: blob.image.clone(), data_url: blob.data_url.clone() },
            );
        }
        let _ = s.emoji_requested.remove(blob.image.as_str());
        s.emoji_images.insert(blob.image, blob.data_url);
        proof {
            done = done + 1;
        }
    }
    assert(all.take(done) =~= all);
    effects
}

/// Everyone but one member of a guild.
pub open spec fn other_than(guild: Id, pubkey: Seq<char>) -> spec_fn(Member) -> bool {
    |m: Member| !(m.guild_id == guild && m.user.pubkey@ == pubkey)
}

/// A member was removed, and the call's key has to change.
pub open spec fn member_removed(o: AppState, guild_id: Id, pubkey: Seq<char>, n: AppState) -> bool {
    &&& n == (AppState { members: n.members, pending_rekey: true, ..o })
    &&& n.members@ == o.members@.filter(other_than(guild_id, pubkey))
}

fn on_member_remove(s: &mut AppState, guild_id: Id, user_pubkey: &str)
    ensures
        member_removed(*old(s), guild_id, user_pubkey@, *final(s)),
{
    let stays = |m: &Member| -> (b: bool)
        ensures
            b == !(m.guild_id == guild_id && m.user.pubkey@ == user_pubkey@),
    {
        !(m.guild_id == guild_id && same(m.user.pubkey.as_str(), user_pubkey))
    };
    keep_where(&mut s.members, stays, Ghost(other_than(guild_id, user_pubkey@)));
    s.pending_rekey = true;
}

/// A member went offline.
pub open spec fn member_left(o: AppState, guild_id: Id, pubkey: Seq<char>, n: AppState) -> bool {
    let p = same_member(guild_id, pubkey);
    &&& n == (AppState { members: n.members, ..o })
    &&& !any_where(o.members@, p) ==> n.members@ == o.members@
    &&& forall|i: int| #[trigger]
        first_where(o.members@, p, i) ==> n.members@ == o.members@.update(
            i,
            Member { online: false, ..o.members@[i] },
        )
}

fn on_member_leave(s: &mut AppState, guild_id: Id, user_pubkey: &str)
    ensures
        member_left(*old(s), guild_id, user_pubkey@, *final(s)),
{
    let ghost before = s.members@;
    let ghost p = same_member(guild_id, user_pubkey@);
    match find_member(&s.members, guild_id, user_pubkey) {
        Some(i) => {
            let member: Member = Member {
                guild_id: s.members[i].guild_id,
                user: User {
                    pubkey: s.members[i].user.pubkey.clone(),
                    username: s.members[i].user.username.clone(),
                },
                online: false,
            };
            s.members[i] = member;
            assert(member == (Member { online: false, ..before[i as int] }));
            assert forall|k: int| #[trigger] first_where(before, p, k) implies k == i by {
                if k < i {
                    assert(!p(before[k]));
                } else if i < k {
                    assert(!p(before[i as int]));
                }
            }
        },
        None => {
            assert forall|k: int| #[trigger] first_where(before, p, k) implies false by {
                assert(p(before[k]));
            }
        },
    }
}

/// The message that asks to join, by invitation or by guild.
pub open spec fn join_request(
    guild_id: Id,
    invite_code: Option<String>,
    accept: bool,
    pow_nonce: Option<String>,
) -> ClientMessage {
    match invite_code {
        Some(code) => ClientMessage::JoinByInvite { code, accept, pow_nonce },
        None => ClientMessage::JoinGuild { guild_id, accept, pow_nonce },
    }
}

/// Writes the message that asks to join.
pub fn join_message(
    guild_id: Id,
    invite_code: Option<String>,
    accept: bool,
    pow_nonce: Option<String>,
) -> (r: ClientMessage)
    ensures
        r == join_request(guild_id, invite_code, accept, pow_nonce),
{
    match invite_code {
        Some(code) => ClientMessage::JoinByInvite { code, accept, pow_nonce },
        None => ClientMessage::JoinGuild { guild_id, accept, pow_nonce },
    }
}

pub open spec fn entry_is(id: Id) -> spec_fn(CatalogEntry) -> bool {
    |c: CatalogEntry| c.id == id
}

/// A guild asks something of those who join: nothing, its rules, or work.
pub open spec fn challenged(
    o: AppState,
    guild_id: Id,
    gate: JoinGate,
    rules: Option<String>,
    pow_challenge: Option<String>,
    pow_difficulty: Option<u32>,
    invite_code: Option<String>,
    n: AppState,
    e: Seq<Effect>,
) -> bool {
    match gate {
        JoinGate::Open => n == o && e == seq![
            Effect::Send(join_request(guild_id, invite_code, false, None)),
        ],
        JoinGate::Rules => {
            &&& n == (AppState { rules_prompt: n.rules_prompt, ..o })
            &&& n.rules_prompt matches Some(p) && {
                &&& p.guild_id == guild_id
                &&& p.invite_code == invite_code
                &&& p.rules@ == match rules {
                    Some(r) => r@,
                    None => Seq::<char>::empty(),
                }
                &&& !any_where(o.catalog@, entry_is(guild_id)) ==> p.guild_name is None
                &&& forall|i: int| #[trigger]
                    first_where(o.catalog@, entry_is(guild_id), i) ==> p.guild_name == Some(
                        o.catalog@[i].name,
                    )
            }
            &&& e == Seq::<Effect>::empty()
        },
        JoinGate::Pow => n == o && e == match (pow_challenge, pow_difficulty) {
            (Some(challenge), Some(bits)) => seq![
                Effect::SolvePow { challenge, bits, guild_id, invite_code },
            ],
            _ => Seq::empty(),
        },
    }
}

fn on_challenge(
    s: &mut AppState,
    guild_id: Id,
    gate: JoinGate,
    rules: Option<String>,
    pow_challenge: Option<String>,
    pow_difficulty: Option<u32>,
    invite_code: Option<String>,
) -> (r: Vec<Effect>)
    ensures
        challenged(
            *old(s),
            guild_id,
            gate,
            rules,
            pow_challenge,
            pow_difficulty,
            invite_code,
            *final(s),
            r@,
        ),
{
    let mut effects: Vec<Effect> = Vec::new();
    match gate {
        JoinGate::Open => {
            effects.push(Effect::Send(join_message(guild_id, invite_code, false, None)));
            assert(effects@ =~= seq![
                Effect::Send(join_request(guild_id, invite_code, false, None)),
            ]);
        },
        JoinGate::Rules => {
            let test = |c: &CatalogEntry| -> (b: bool)
                ensures
                    b == (c.id == guild_id),
            {
                c.id == guild_id
            };
            let ghost p = entry_is(guild_id);
            let ghost catalog = s.catalog@;
            let guild_name: Option<String> = match find_where(&s.catalog, test, Ghost(p)) {
                Some(i) => {
                    assert forall|k: int| #[trigger] first_where(catalog, p, k) implies k == i by {
                        if k < i {
                            assert(!p(catalog[k]));
                        } else if i < k {
                            assert(!p(catalog[i as int]));
                        }
                    }
                    Some(s.catalog[i].name.clone())
                },
                None => {
                    assert forall|k: int| #[trigger] first_where(catalog, p, k) implies false by {
                        assert(p(catalog[k]));
                    }
                    None
                },
            };
            let rules: String = match rules {
                Some(r) => r,
                None => String::new(),
            };
            s.rules_prompt = Some(RulesPrompt { guild_id, guild_name, rules, invite_code });
            assert(effects@ =~= Seq::<Effect>::empty());
        },
        JoinGate::Pow => {
            match (pow_challenge, pow_difficulty) {
                (Some(challenge), Some(bits)) => {
                    effects.push(Effect::SolvePow { challenge, bits, guild_id, invite_code });
                },
                _ => {},
            }
            assert(effects@ =~= match (pow_challenge, pow_difficulty) {
                (Some(challenge), Some(bits)) => seq![
                    Effect::SolvePow { challenge, bits, guild_id, invite_code },
                ],
                _ => Seq::empty(),
            });
        },
    }
    effects
}

pub open spec fn channel_not(id: Id) -> spec_fn(Channel) -> bool {
    |c: Channel| c.id != id
}

/// A channel is gone, with what was said in it. If it was open, the guild's first
/// text channel is opened.
pub open spec fn channel_deleted(
    o: AppState,
    guild_id: Id,
    channel_id: Id,
    n: AppState,
    e: Seq<Effect>,
) -> bool {
    let was_open = o.selected_channel == Some(channel_id);
    &&& n == (AppState {
        channels: n.channels,
        messages: n.messages,
        typing: n.typing,
        screen_shares: n.screen_shares,
        selected_channel: if was_open {
            default_channel(n.channels@, guild_id)
        } else {
            o.selected_channel
        },
        ..o
    })
    &&& n.channels@ == o.channels@.filter(channel_not(channel_id))
    &&& n.messages@ == o.messages@.remove(channel_id)
    &&& n.typing@ == o.typing@.remove(channel_id)
    &&& n.screen_shares@ == o.screen_shares@.remove(channel_id)
    &&& e == if was_open {
        fetched_new(n.selected_channel, n.messages@)
    } else {
        Seq::empty()
    }
}

fn on_channel_delete(s: &mut AppState, guild_id: Id, channel_id: Id) -> (r: Vec<Effect>)
    ensures
        channel_deleted(*old(s), guild_id, channel_id, *final(s), r@),
{
    let stays = |c: &Channel| -> (b: bool)
        ensures
            b == (c.id != channel_id),
    {
        c.id != channel_id
    };
    keep_where(&mut s.channels, stays, Ghost(channel_not(channel_id)));
    let _ = s.messages.remove(channel_id);
    let _ = s.typing.remove(channel_id);
    let _ = s.screen_shares.remove(channel_id);
    let mut effects: Vec<Effect> = Vec::new();
    if is_id(s.selected_channel, channel_id) {
        let next: Option<Id> = s.default_channel_of(guild_id);
        s.selected_channel = next;
        push_fetch_new(&mut effects, next, &s.messages);
        assert(effects@ =~= fetched_new(next, s.messages@));
    } else {
        assert(effects@ =~= Seq::empty());
    }
    effects
}

pub open spec fn message_not(id: Id) -> spec_fn(Message) -> bool {
    |m: Message| m.id != id
}

/// A message was deleted.
pub open spec fn message_deleted(o: AppState, channel_id: Id, message_id: Id, n: AppState) -> bool {
    &&& n == (AppState { messages: n.messages, ..o })
    &&& lists(n.messages@) == if o.messages@.dom().contains(channel_id) {
        lists(o.messages@).insert(
            channel_id,
            o.messages@[channel_id]@.filter(message_not(message_id)),
        )
    } else {
        lists(o.messages@)
    }
}

fn on_message_delete(s: &mut AppState, channel_id: Id, message_id: Id)
    ensures
        message_deleted(*old(s), channel_id, message_id, *final(s)),
{
    let ghost before = s.messages@;
    let stays = |m: &Message| -> (b: bool)
        ensures
            b == (m.id != message_id),
    {
        m.id != message_id
    };
    match s.messages.remove(channel_id) {
        Some(list) => {
            let mut list: Vec<Message> = list;
            keep_where(&mut list, stays, Ghost(message_not(message_id)));
            s.messages.insert(channel_id, list);
            assert(lists(s.messages@) =~= lists(before).insert(channel_id, list@));
        },
        None => {
            assert(s.messages@ =~= before);
        },
    }
}

/// Whether somebody shares a screen in some channel.
pub open spec fn shares(shares: Map<Id, Vec<String>>, pubkey: Seq<char>) -> bool {
    exists|k: Id, i: int|
        shares.dom().contains(k) && 0 <= i < shares[k]@.len() && (#[trigger] shares[k]@[i])@
            == pubkey
}

/// Who shares a screen in a channel changed. What is no longer shared is no
/// longer watched.
pub open spec fn sharers_changed(
    o: AppState,
    channel_id: Id,
    sharers: Vec<String>,
    n: AppState,
) -> bool {
    &&& n == (AppState { screen_shares: n.screen_shares, screen_viewing: n.screen_viewing, ..o })
    &&& n.screen_shares@ == if sharers@.len() == 0 {
        o.screen_shares@.remove(channel_id)
    } else {
        o.screen_shares@.insert(channel_id, sharers)
    }
    &&& n.screen_viewing == match o.screen_viewing {
        Some(pk) => if shares(n.screen_shares@, pk@) {
            Some(pk)
        } else {
            None
        },
        None => None,
    }
}

fn is_sharing(table: &IdTable<Vec<String>>, pubkey: &str) -> (r: bool)
    ensures
        r == shares(table@, pubkey@),
{
    let n: usize = table.len();
    let ghost list = table.list();
    let mut i: usize = 0;
    while i < n
        invariant
            i <= n,
            n == list.len(),
            list == table.list(),
            keyed_once(list),
            as_map(list) == table@,
            forall|a: int, b: int|
                0 <= a < i && 0 <= b < list[a].1@.len() ==> (#[trigger] list[a].1@[b])@ != pubkey@,
        decreases n - i,
    {
        let sharers: &Vec<String> = &table.entry(i).1;
        if present_has(sharers, pubkey) {
            proof {
                map_at(list, i as int);
                let b = choose|b: int| 0 <= b < sharers@.len() && (#[trigger] sharers@[b])@
                    == pubkey@;
                assert(table@[list[i as int].0]@[b]@ == pubkey@);
            }
            return true;
        }
        assert forall|b: int| 0 <= b < list[i as int].1@.len() implies (
        #[trigger] list[i as int].1@[b])@ != pubkey@ by {
            assert(sharers@[b]@ != pubkey@);
        }
        i = i + 1;
    }
    proof {
        if shares(table@, pubkey@) {
            let (k, b) = choose|k: Id, b: int|
                table@.dom().contains(k) && 0 <= b < table@[k]@.len() && (
                #[trigger] table@[k]@[b])@ == pubkey@;
            let a = map_only(list, k);
            map_at(list, a);
            assert(list[a].1@[b]@ != pubkey@);
        }
    }
    false
}

fn on_sharers(s: &mut AppState, channel_id: Id, sharers: Vec<String>)
    ensures
        sharers_changed(*old(s), channel_id, sharers, *final(s)),
{
    if sharers.len() == 0 {
        let _ = s.screen_shares.remove(channel_id);
    } else {
        s.screen_shares.insert(channel_id, sharers);
    }
    let gone: bool = match &s.screen_viewing {
        Some(pk) => !is_sharing(&s.screen_shares, pk.as_str()),
        None => false,
    };
    if gone {
        s.screen_viewing = None;
    }
}

/// Whether an offered media key takes the place of the one in use: a later epoch
/// does, and at the same epoch the lesser name wins, so that both sides converge.
pub open spec fn superseding(
    have: Option<u32>,
    epoch: u32,
    from: Seq<char>,
    me: Option<Seq<char>>,
) -> bool {
    match (have, me) {
        (None, _) => true,
        (Some(have), Some(mine)) => if epoch == have {
            text_lt(from, mine)
        } else {
            epoch > have
        },
        (Some(have), None) => epoch > have,
    }
}

/// Whether an offered media key takes the place of the one in use.
pub fn supersedes(have: Option<u32>, epoch: u32, from: &str, me: Option<&str>) -> (r: bool)
    ensures
        r == superseding(have, epoch, from@, opt_str(me)),
{
    match (have, me) {
        (None, _) => true,
        (Some(have), Some(mine)) => {
            if epoch == have {
                text_before(from, mine)
            } else {
                epoch > have
            }
        },
        (Some(have), None) => epoch > have,
    }
}

/// Two members that made a key at the same epoch settle on one: exactly one of
/// them takes the other's.
pub proof fn equal_epochs_converge(epoch: u32, a: Seq<char>, b: Seq<char>)
    requires
        a != b,
    ensures
        superseding(Some(epoch), epoch, a, Some(b)) != superseding(Some(epoch), epoch, b, Some(a)),
{
    text_lt_total(a, b);
}

/// A media key is offered.
pub open spec fn key_offered(
    o: AppState,
    channel_id: Id,
    from: Seq<char>,
    epoch: u32,
    blob: Seq<char>,
    n: AppState,
    e: Seq<Effect>,
) -> bool {
    let have: Option<u32> = if o.media_keys@.dom().contains(channel_id) {
        Some(o.media_keys@[channel_id].0)
    } else {
        None
    };
    let me = match o.self_user {
        Some(u) => Some(u.pubkey@),
        None => None,
    };
    let unchanged = n == o && e == Seq::<Effect>::empty();
    match o.identity {
        None => unchanged,
        Some(identity) => if !superseding(have, epoch, from, me) {
            unchanged
        } else {
            match opened_blob(blob, from, epoch, identity.key(), identity.pubkey@) {
                Err(_) => unchanged,
                Ok(key) => if have == Some(epoch) && o.media_keys@[channel_id].1@ == key {
                    unchanged
                } else {
                    &&& n == (AppState {
                        media_keys: n.media_keys,
                        media_undecryptable: false,
                        ..o
                    })
                    &&& exists|k: [u8; 32]|
                        {
                            &&& (#[trigger] k@) == key
                            &&& n.media_keys@ == o.media_keys@.insert(channel_id, (epoch, k))
                            &&& e == seq![Effect::ApplyKey { key: k, epoch }]
                        }
                },
            }
        },
    }
}

fn on_media_key(s: &mut AppState, channel_id: Id, from: &str, epoch: u32, blob: &str) -> (r: Vec<
    Effect,
>)
    ensures
        key_offered(*old(s), channel_id, from@, epoch, blob@, *final(s), r@),
{
    let mut effects: Vec<Effect> = Vec::new();
    assert(effects@ =~= Seq::<Effect>::empty());
    let held: Option<(u32, [u8; 32])> = match s.media_keys.get(channel_id) {
        Some(held) => Some(*held),
        None => None,
    };
    let have: Option<u32> = match held {
        Some(h) => Some(h.0),
        None => None,
    };
    let opened: Result<[u8; 32], String> = match &s.identity {
        None => {
            return effects;
        },
        Some(identity) => {
            let me: Option<&str> = match &s.self_user {
                Some(u) => Some(u.pubkey.as_str()),
                None => None,
            };
            if !supersedes(have, epoch, from, me) {
                return effects;
            }
            open(blob, from, epoch, identity)
        },
    };
    match opened {
        Err(_) => {},
        Ok(key) => {
            let known: bool = match held {
                Some(h) => h.0 == epoch && same_bytes(h.1.as_slice(), key.as_slice()),
                None => false,
            };
            if !known {
                s.media_keys.insert(channel_id, (epoch, key));
                s.media_undecryptable = false;
                effects.push(Effect::ApplyKey { key, epoch });
                assert(effects@ =~= seq![Effect::ApplyKey { key, epoch }]);
                assert(key@ == key@);
            }
        },
    }
    effects
}

/// The call state of one person.
pub open spec fn voice_of(pubkey: Seq<char>) -> spec_fn(VoiceState) -> bool {
    |v: VoiceState| v.user_pubkey@ == pubkey
}

/// What changes when the gateway says that we are out of the call.
pub open spec fn hung_up(o: AppState, n: AppState) -> bool {
    &&& n == (AppState {
        voice: SelfVoice { phase: VoicePhase::Idle, channel_id: None, ..o.voice },
        screen_token: None,
        screen_audio_token: None,
        screen_video_token: None,
        screen_share_target: None,
        screen_sharing: false,
        screen_viewing: None,
        camera_on: false,
        camera_starting: false,
        cameras_watching: n.cameras_watching,
        ..o
    })
    &&& n.cameras_watching@.len() == 0
}

fn hang_up(s: &mut AppState)
    ensures
        hung_up(*old(s), *final(s)),
{
    s.voice.phase = VoicePhase::Idle;
    s.voice.channel_id = None;
    s.screen_token = None;
    s.screen_audio_token = None;
    s.screen_video_token = None;
    s.screen_share_target = None;
    s.screen_sharing = false;
    s.screen_viewing = None;
    s.camera_on = false;
    s.camera_starting = false;
    s.cameras_watching = Vec::new();
}

/// The list of call states once one changed, and what is watched.
pub open spec fn voice_listed(o: AppState, vs: VoiceState, m: AppState) -> bool {
    let p = voice_of(vs.user_pubkey@);
    &&& m == (AppState { voice_states: m.voice_states, screen_viewing: m.screen_viewing, ..o })
    &&& m.voice_states@ == if vs.channel_id is Some {
        put(o.voice_states@, p, vs)
    } else {
        without_first(o.voice_states@, p)
    }
    &&& m.screen_viewing == match o.screen_viewing {
        Some(pk) => if pk@ == vs.user_pubkey@ && (!vs.screen_sharing || vs.channel_id is None) {
            None
        } else {
            Some(pk)
        },
        None => None,
    }
}

/// What our own call state makes of what is known.
pub open spec fn own_voice(m: AppState, vs: VoiceState, n: AppState, e: Seq<Effect>) -> bool {
    let mute = if vs.muted != m.voice.muted {
        seq![Effect::Voice(VoiceCmd::SetMute { muted: vs.muted })]
    } else {
        Seq::empty()
    };
    let deafen = if vs.deafened != m.voice.deafened {
        seq![Effect::Voice(VoiceCmd::SetDeafen { deafened: vs.deafened })]
    } else {
        Seq::empty()
    };
    let told = AppState {
        voice: SelfVoice { muted: vs.muted, deafened: vs.deafened, ..m.voice },
        ..m
    };
    if vs.channel_id is None && m.voice.phase != VoicePhase::Idle {
        hung_up(told, n) && e == mute + deafen + seq![Effect::Voice(VoiceCmd::Disconnect)]
    } else {
        n == told && e == mute + deafen
    }
}

/// Somebody's call state changed.
pub open spec fn voice_updated(o: AppState, vs: VoiceState, n: AppState, e: Seq<Effect>) -> bool {
    let is_self = o.self_user is Some && o.self_user->Some_0.pubkey@ == vs.user_pubkey@;
    exists|m: AppState| #[trigger]
        voice_listed(o, vs, m) && if is_self {
            own_voice(m, vs, n, e)
        } else {
            n == m && e == Seq::<Effect>::empty()
        }
}

fn place_voice(v: &mut Vec<VoiceState>, vs: VoiceState)
    ensures
        final(v)@ == if vs.channel_id is Some {
            put(old(v)@, voice_of(vs.user_pubkey@), vs)
        } else {
            without_first(old(v)@, voice_of(vs.user_pubkey@))
        },
{
    let ghost p = voice_of(vs.user_pubkey@);
    let ghost before = v@;
    let key: String = vs.user_pubkey.clone();
    let test = |x: &VoiceState| -> (b: bool)
        ensures
            b == (x.user_pubkey@ == key@),
    {
        same(x.user_pubkey.as_str(), key.as_str())
    };
    match find_where(v, test, Ghost(p)) {
        Some(i) => {
            proof {
                put_found(before, p, vs, i as int);
                without_found(before, p, i as int);
            }
            if vs.channel_id.is_some() {
                v[i] = vs;
            } else {
                let _ = v.remove(i);
            }
        },
        None => {
            proof {
                put_missing(before, p, vs);
                without_missing(before, p);
            }
            if vs.channel_id.is_some() {
                v.push(vs);
            }
        },
    }
}

fn list_voice(s: &mut AppState, vs: VoiceState)
    ensures
        voice_listed(*old(s), vs, *final(s)),
{
    let unwatched: bool = match &s.screen_viewing {
        Some(pk) => same(pk.as_str(), vs.user_pubkey.as_str()) && (!vs.screen_sharing
            || vs.channel_id.is_none()),
        None => false,
    };
    place_voice(&mut s.voice_states, vs);
    if unwatched {
        s.screen_viewing = None;
    }
}

fn follow_own_voice(s: &mut AppState, vs: Ghost<VoiceState>, muted: bool, deafened: bool, out: bool)
    -> (r: Vec<Effect>)
    requires
        muted == vs@.muted,
        deafened == vs@.deafened,
        out == (vs@.channel_id is None),
    ensures
        own_voice(*old(s), vs@, *final(s), r@),
{
    let ghost m = *s;
    let mut effects: Vec<Effect> = Vec::new();
    if muted != s.voice.muted {
        effects.push(Effect::Voice(VoiceCmd::SetMute { muted }));
    }
    if deafened != s.voice.deafened {
        effects.push(Effect::Voice(VoiceCmd::SetDeafen { deafened }));
    }
    s.voice.muted = muted;
    s.voice.deafened = deafened;
    let ghost mute = if muted != m.voice.muted {
        seq![Effect::Voice(VoiceCmd::SetMute { muted })]
    } else {
        Seq::empty()
    };
    let ghost deafen = if deafened != m.voice.deafened {
        seq![Effect::Voice(VoiceCmd::SetDeafen { deafened })]
    } else {
        Seq::empty()
    };
    assert(effects@ =~= mute + deafen);
    if out && s.voice.phase != VoicePhase::Idle {
        hang_up(s);
        effects.push(Effect::Voice(VoiceCmd::Disconnect));
        assert(effects@ =~= mute + deafen + seq![Effect::Voice(VoiceCmd::Disconnect)]);
    }
    effects
}

fn on_voice_state(s: &mut AppState, vs: VoiceState) -> (r: Vec<Effect>)
    ensures
        voice_updated(*old(s), vs, *final(s), r@),
{
    let is_self: bool = s.is_self(vs.user_pubkey.as_str());
    let muted: bool = vs.muted;
    let deafened: bool = vs.deafened;
    let out: bool = vs.channel_id.is_none();
    let ghost state = vs;
    list_voice(s, vs);
    let ghost m = *s;
    assert(voice_listed(*old(s), state, m));
    if !is_self {
        let effects: Vec<Effect> = Vec::new();
        assert(effects@ =~= Seq::<Effect>::empty());
        return effects;
    }
    follow_own_voice(s, Ghost(state), muted, deafened, out)
}

/// A pair of a place and a token, where there is a token.
pub open spec fn token_at(url: String, token: String) -> Option<(String, String)> {
    if token@.len() > 0 {
        Some((url, token))
    } else {
        None
    }
}

fn some_token(url: &String, token: String) -> (r: Option<(String, String)>)
    ensures
        r == token_at(*url, token),
{
    if token.as_str().unicode_len() > 0 {
        Some((url.clone(), token))
    } else {
        None
    }
}

/// A profile changed.
pub open spec fn profile_updated(o: AppState, profile: Profile, n: AppState, e: Seq<Effect>) -> bool {
    &&& n == (AppState { profiles: n.profiles, ..o })
    &&& n.profiles@ == o.profiles@.insert(profile.pubkey@, profile)
    &&& e == seq![Effect::ResolveMedia]
}

fn on_profile_updated(s: &mut AppState, profile: Profile) -> (r: Vec<Effect>)
    ensures
        profile_updated(*old(s), profile, *final(s), r@),
{
    let key: String = profile.pubkey.clone();
    s.profiles.insert(key, profile);
    let mut effects: Vec<Effect> = Vec::new();
    effects.push(Effect::ResolveMedia);
    assert(effects@ =~= seq![Effect::ResolveMedia]);
    effects
}

/// A guild changed.
pub open spec fn guild_updated(o: AppState, guild: Guild, n: AppState, e: Seq<Effect>) -> bool {
    &&& n == (AppState { guilds: n.guilds, ..o })
    &&& n.guilds@ == swapped(o.guilds@, guild_is(guild.id), guild)
    &&& e == seq![Effect::ResolveMedia]
}

fn on_guild_updated(s: &mut AppState, guild: Guild) -> (r: Vec<Effect>)
    ensures
        guild_updated(*old(s), guild, *final(s), r@),
{
    let id: Id = guild.id;
    let test = |g: &Guild| -> (b: bool)
        ensures
            b == (g.id == id),
    {
        g.id == id
    };
    swap_where(&mut s.guilds, guild, test, Ghost(guild_is(id)));
    let mut effects: Vec<Effect> = Vec::new();
    effects.push(Effect::ResolveMedia);
    assert(effects@ =~= seq![Effect::ResolveMedia]);
    effects
}

/// A guild's bots are listed.
pub open spec fn bots_listed(o: AppState, guild_id: Id, bots: Vec<User>, n: AppState, e: Seq<Effect>) -> bool {
    &&& n == (AppState { integrations: n.integrations, ..o })
    &&& n.integrations@ == o.integrations@.insert(guild_id, bots)
    &&& e == Seq::<Effect>::empty()
}

fn on_bots_listed(s: &mut AppState, guild_id: Id, bots: Vec<User>) -> (r: Vec<Effect>)
    ensures
        bots_listed(*old(s), guild_id, bots, *final(s), r@),
{
    s.integrations.insert(guild_id, bots);
    let effects: Vec<Effect> = Vec::new();
    assert(effects@ =~= Seq::<Effect>::empty());
    effects
}

/// A guild's roles are listed.
pub open spec fn roles_listed(o: AppState, guild_id: Id, roles: Vec<Role>, n: AppState, e: Seq<Effect>) -> bool {
    &&& n == (AppState { roles: n.roles, ..o })
    &&& n.roles@ == o.roles@.insert(guild_id, roles)
    &&& e == Seq::<Effect>::empty()
}

fn on_roles_listed(s: &mut AppState, guild_id: Id, roles: Vec<Role>) -> (r: Vec<Effect>)
    ensures
        roles_listed(*old(s), guild_id, roles, *final(s), r@),
{
    s.roles.insert(guild_id, roles);
    let effects: Vec<Effect> = Vec::new();
    assert(effects@ =~= Seq::<Effect>::empty());
    effects
}

/// A guild's emojis are listed.
pub open spec fn emojis_listed(o: AppState, guild_id: Id, emojis: Vec<GuildEmoji>, n: AppState, e: Seq<Effect>) -> bool {
    &&& n == (AppState { guild_emojis: n.guild_emojis, ..o })
    &&& n.guild_emojis@ == o.guild_emojis@.insert(guild_id, emojis)
    &&& e == seq![Effect::ResolveMedia]
}

fn on_emojis_listed(s: &mut AppState, guild_id: Id, emojis: Vec<GuildEmoji>) -> (r: Vec<Effect>)
    ensures
        emojis_listed(*old(s), guild_id, emojis, *final(s), r@),
{
    s.guild_emojis.insert(guild_id, emojis);
    let mut effects: Vec<Effect> = Vec::new();
    effects.push(Effect::ResolveMedia);
    assert(effects@ =~= seq![Effect::ResolveMedia]);
    effects
}

/// A member came or changed.
pub open spec fn member_updated(o: AppState, member: Member, n: AppState, e: Seq<Effect>) -> bool {
    &&& n == (AppState { members: n.members, ..o })
    &&& n.members@ == member_put(o.members@, member)
    &&& e == Seq::<Effect>::empty()
}

fn on_member_updated(s: &mut AppState, member: Member) -> (r: Vec<Effect>)
    ensures
        member_updated(*old(s), member, *final(s), r@),
{
    put_member(&mut s.members, member);
    let effects: Vec<Effect> = Vec::new();
    assert(effects@ =~= Seq::<Effect>::empty());
    effects
}

/// An invitation was made.
pub open spec fn invited(o: AppState, guild_id: Id, code: String, n: AppState, e: Seq<Effect>) -> bool {
    &&& n == (AppState { invites: n.invites, ..o })
    &&& n.invites@ == o.invites@.insert(guild_id, code)
    &&& e == Seq::<Effect>::empty()
}

fn on_invited(s: &mut AppState, guild_id: Id, code: String) -> (r: Vec<Effect>)
    ensures
        invited(*old(s), guild_id, code, *final(s), r@),
{
    s.invites.insert(guild_id, code);
    let effects: Vec<Effect> = Vec::new();
    assert(effects@ =~= Seq::<Effect>::empty());
    effects
}

/// A guild's bans are listed.
pub open spec fn bans_listed(o: AppState, guild_id: Id, users: Vec<User>, n: AppState, e: Seq<Effect>) -> bool {
    &&& n == (AppState { bans: n.bans, ..o })
    &&& n.bans@ == o.bans@.insert(guild_id, users)
    &&& e == Seq::<Effect>::empty()
}

fn on_bans_listed(s: &mut AppState, guild_id: Id, users: Vec<User>) -> (r: Vec<Effect>)
    ensures
        bans_listed(*old(s), guild_id, users, *final(s), r@),
{
    s.bans.insert(guild_id, users);
    let effects: Vec<Effect> = Vec::new();
    assert(effects@ =~= Seq::<Effect>::empty());
    effects
}

/// A guild's log is listed.
pub open spec fn log_listed(o: AppState, guild_id: Id, entries: Vec<String>, n: AppState, e: Seq<Effect>) -> bool {
    &&& n == (AppState { audit_logs: n.audit_logs, ..o })
    &&& n.audit_logs@ == o.audit_logs@.insert(guild_id, entries)
    &&& e == Seq::<Effect>::empty()
}

fn on_log_listed(s: &mut AppState, guild_id: Id, entries: Vec<String>) -> (r: Vec<Effect>)
    ensures
        log_listed(*old(s), guild_id, entries, *final(s), r@),
{
    s.audit_logs.insert(guild_id, entries);
    let effects: Vec<Effect> = Vec::new();
    assert(effects@ =~= Seq::<Effect>::empty());
    effects
}

/// A channel was made.
pub open spec fn channel_created(o: AppState, ch: Channel, n: AppState, e: Seq<Effect>) -> bool {
    &&& n == (AppState { channels: n.channels, ..o })
    &&& n.channels@ == if any_where(o.channels@, channel_is(ch.id)) {
        o.channels@
    } else {
        o.channels@.push(ch)
    }
    &&& e == Seq::<Effect>::empty()
}

fn on_channel_created(s: &mut AppState, ch: Channel) -> (r: Vec<Effect>)
    ensures
        channel_created(*old(s), ch, *final(s), r@),
{
    if !has_channel(&s.channels, ch.id) {
        s.channels.push(ch);
    }
    let effects: Vec<Effect> = Vec::new();
    assert(effects@ =~= Seq::<Effect>::empty());
    effects
}

/// A channel changed.
pub open spec fn channel_updated(o: AppState, ch: Channel, n: AppState, e: Seq<Effect>) -> bool {
    &&& n == (AppState { channels: n.channels, ..o })
    &&& n.channels@ == swapped(o.channels@, channel_is(ch.id), ch)
    &&& e == Seq::<Effect>::empty()
}

fn on_channel_updated(s: &mut AppState, ch: Channel) -> (r: Vec<Effect>)
    ensures
        channel_updated(*old(s), ch, *final(s), r@),
{
    let id: Id = ch.id;
    let test = |c: &Channel| -> (b: bool)
        ensures
            b == (c.id == id),
    {
        c.id == id
    };
    swap_where(&mut s.channels, ch, test, Ghost(channel_is(id)));
    let effects: Vec<Effect> = Vec::new();
    assert(effects@ =~= Seq::<Effect>::empty());
    effects
}

/// A place in a call is given.
pub open spec fn call_granted(o: AppState, channel_id: Id, livekit_url: String, token: String, n: AppState, e: Seq<Effect>) -> bool {
    &&& n == (AppState {
        voice: SelfVoice {
            phase: VoicePhase::Connecting,
            channel_id: Some(channel_id),
            error: None,
            ..o.voice
        },
        ..o
    })
    &&& e == seq![Effect::Voice(VoiceCmd::Connect { livekit_url, token, channel_id })]
}

fn on_call_granted(s: &mut AppState, channel_id: Id, livekit_url: String, token: String) -> (r: Vec<Effect>)
    ensures
        call_granted(*old(s), channel_id, livekit_url, token, *final(s), r@),
{
    s.voice.phase = VoicePhase::Connecting;
    s.voice.channel_id = Some(channel_id);
    s.voice.error = None;
    let mut effects: Vec<Effect> = Vec::new();
    effects.push(Effect::Voice(VoiceCmd::Connect { livekit_url, token, channel_id }));
    assert(effects@ =~= seq![Effect::Voice(VoiceCmd::Connect { livekit_url, token, channel_id })]);
    effects
}

/// A place among the shared screens is given.
pub open spec fn screens_granted(o: AppState, livekit_url: String, token: String, audio_token: String, video_token: String, n: AppState, e: Seq<Effect>) -> bool {
    &&& n == (AppState {
        screen_token: Some((livekit_url, token)),
        screen_audio_token: token_at(livekit_url, audio_token),
        screen_video_token: token_at(livekit_url, video_token),
        ..o
    })
    &&& e == Seq::<Effect>::empty()
}

fn on_screens_granted(s: &mut AppState, livekit_url: String, token: String, audio_token: String, video_token: String) -> (r: Vec<Effect>)
    ensures
        screens_granted(*old(s), livekit_url, token, audio_token, video_token, *final(s), r@),
{
    s.screen_audio_token = some_token(&livekit_url, audio_token);
    s.screen_video_token = some_token(&livekit_url, video_token);
    s.screen_token = Some((livekit_url, token));
    let effects: Vec<Effect> = Vec::new();
    assert(effects@ =~= Seq::<Effect>::empty());
    effects
}

/// The gateway refused something.
pub open spec fn refused(o: AppState, message: String, n: AppState, e: Seq<Effect>) -> bool {
    &&& n == (AppState { error_toast: Some(message), ..o })
    &&& e == Seq::<Effect>::empty()
}

fn on_refused(s: &mut AppState, message: String) -> (r: Vec<Effect>)
    ensures
        refused(*old(s), message, *final(s), r@),
{
    s.error_toast = Some(message);
    let effects: Vec<Effect> = Vec::new();
    assert(effects@ =~= Seq::<Effect>::empty());
    effects
}

/// What a message of the gateway does to what is known, and what has to be done
/// in answer.
pub open spec fn applied(
    o: AppState,
    msg: ServerMessage,
    now: u64,
    n: AppState,
    e: Seq<Effect>,
) -> bool {
    let silent = e == Seq::<Effect>::empty();
    match msg {
        ServerMessage::Hello { .. } => n == o && silent,
        ServerMessage::Ready {
            user,
            guilds,
            channels,
            members,
            voice_states,
            catalog,
            profiles,
            roles,
            emojis,
            operator,
        } => ready(
            o,
            user,
            guilds@,
            channels@,
            members@,
            voice_states@,
            catalog@,
            profiles@,
            roles@,
            emojis@,
            operator,
            n,
            e,
        ),
        ServerMessage::MessageHistory { channel_id, messages } => history(
            o,
            channel_id,
            messages@,
            n,
            e,
        ),
        ServerMessage::MessageCreate(m) => message_created(o, m, n, e),
        ServerMessage::GuildJoined { guild, channels, members, roles, emojis, voice_states } =>
            guild_joined(o, guild, channels@, members@, roles, emojis, voice_states@, n, e),
        ServerMessage::GuildCatalog { guilds, offset, total } => catalog_page(
            o,
            guilds@,
            offset,
            total,
            n,
        ) && silent,
        ServerMessage::GuildDelete { guild_id } => guild_deleted(o, guild_id, n, e),
        ServerMessage::ProfileUpdate(profile) => profile_updated(o, profile, n, e),
        ServerMessage::ReactionUpdate { channel_id, message_id, reactions } => reacted(
            o,
            channel_id,
            message_id,
            reactions,
            n,
        ) && silent,
        ServerMessage::TypingUpdate { channel_id, user_pubkey, username } => typed(
            o,
            channel_id,
            user_pubkey@,
            username,
            now,
            n,
        ) && silent,
        ServerMessage::GuildUpdate(guild) => guild_updated(o, guild, n, e),
        ServerMessage::GuildIntegrations { guild_id, bots } => bots_listed(o, guild_id, bots, n, e),
        ServerMessage::GuildRoles { guild_id, roles } => roles_listed(o, guild_id, roles, n, e),
        ServerMessage::GuildEmojis { guild_id, emojis } => emojis_listed(o, guild_id, emojis, n, e),
        ServerMessage::EmojiBlobs { blobs } => blobs_arrived(o, blobs@, n, e),
        ServerMessage::MemberUpdate(member) | ServerMessage::MemberJoin(member) => member_updated(o, member, n, e),
        ServerMessage::MemberRemove { guild_id, user_pubkey } => member_removed(
            o,
            guild_id,
            user_pubkey@,
            n,
        ) && silent,
        ServerMessage::GuildInvite { guild_id, code } => invited(o, guild_id, code, n, e),
        ServerMessage::GuildBans { guild_id, users } => bans_listed(o, guild_id, users, n, e),
        ServerMessage::AuditLog { guild_id, entries } => log_listed(o, guild_id, entries, n, e),
        ServerMessage::JoinChallenge {
            guild_id,
            gate,
            rules,
            pow_challenge,
            pow_difficulty,
            invite_code,
        } => challenged(
            o,
            guild_id,
            gate,
            rules,
            pow_challenge,
            pow_difficulty,
            invite_code,
            n,
            e,
        ),
        ServerMessage::ChannelCreate(ch) => channel_created(o, ch, n, e),
        ServerMessage::ChannelUpdate(ch) => channel_updated(o, ch, n, e),
        ServerMessage::ChannelDelete { guild_id, channel_id } => channel_deleted(
            o,
            guild_id,
            channel_id,
            n,
            e,
        ),
        ServerMessage::MessageDelete { channel_id, message_id } => message_deleted(
            o,
            channel_id,
            message_id,
            n,
        ) && silent,
        ServerMessage::ScreenShareState { channel_id, sharers } => sharers_changed(
            o,
            channel_id,
            sharers,
            n,
        ) && silent,
        ServerMessage::MemberLeave { guild_id, user_pubkey } => member_left(
            o,
            guild_id,
            user_pubkey@,
            n,
        ) && silent,
        ServerMessage::MediaKey { channel_id, from, epoch, blob } => key_offered(
            o,
            channel_id,
            from@,
            epoch,
            blob@,
            n,
            e,
        ),
        ServerMessage::VoiceStateUpdate(vs) => voice_updated(o, vs, n, e),
        ServerMessage::VoiceToken { channel_id, livekit_url, token } => call_granted(o, channel_id, livekit_url, token, n, e),
        ServerMessage::ScreenToken { livekit_url, token, audio_token, video_token } => screens_granted(o, livekit_url, token, audio_token, video_token, n, e),
        ServerMessage::Error { message } => refused(o, message, n, e),
    }
}

/// Applies a message of the gateway. `now` is a clock in milliseconds.
#[verifier::rlimit(80)]
#[verifier::spinoff_prover]
pub fn apply(s: &mut AppState, msg: ServerMessage, now: u64) -> (r: Vec<Effect>)
    ensures
        applied(*old(s), msg, now, *final(s), r@),
{
    let effects: Vec<Effect> = Vec::new();
    assert(effects@ =~= Seq::<Effect>::empty());
    match msg {
        ServerMessage::Hello { .. } => {},
        ServerMessage::Ready {
            user,
            guilds,
            channels,
            members,
            voice_states,
            catalog,
            profiles,
            roles,
            emojis,
            operator,
        } => {
            return on_ready(
                s,
                user,
                guilds,
                channels,
                members,
                voice_states,
                catalog,
                profiles,
                roles,
                emojis,
                operator,
            );
        },
        ServerMessage::MessageHistory { channel_id, messages } => {
            return on_history(s, channel_id, messages);
        },
        ServerMessage::MessageCreate(m) => {
            return on_message_create(s, m);
        },
        ServerMessage::GuildJoined { guild, channels, members, roles, emojis, voice_states } => {
            return on_guild_joined(s, guild, channels, members, roles, emojis, voice_states);
        },
        ServerMessage::GuildCatalog { guilds, offset, total } => {
            on_catalog(s, guilds, offset, total);
        },
        ServerMessage::GuildDelete { guild_id } => {
            return on_guild_delete(s, guild_id);
        },
        ServerMessage::ProfileUpdate(profile) => {
            return on_profile_updated(s, profile);
        },
        ServerMessage::ReactionUpdate { channel_id, message_id, reactions } => {
            on_reaction(s, channel_id, message_id, reactions);
        },
        ServerMessage::TypingUpdate { channel_id, user_pubkey, username } => {
            on_typing(s, channel_id, user_pubkey, username, now);
        },
        ServerMessage::GuildUpdate(guild) => {
            return on_guild_updated(s, guild);
        },
        ServerMessage::GuildIntegrations { guild_id, bots } => {
            return on_bots_listed(s, guild_id, bots);
        },
        ServerMessage::GuildRoles { guild_id, roles } => {
            return on_roles_listed(s, guild_id, roles);
        },
        ServerMessage::GuildEmojis { guild_id, emojis } => {
            return on_emojis_listed(s, guild_id, emojis);
        },
        ServerMessage::EmojiBlobs { blobs } => {
            return on_blobs(s, blobs);
        },
        ServerMessage::MemberUpdate(member) => {
            return on_member_updated(s, member);
        },
        ServerMessage::MemberJoin(member) => {
            return on_member_updated(s, member);
        },
        ServerMessage::MemberRemove { guild_id, user_pubkey } => {
            on_member_remove(s, guild_id, user_pubkey.as_str());
        },
        ServerMessage::GuildInvite { guild_id, code } => {
            return on_invited(s, guild_id, code);
        },
        ServerMessage::GuildBans { guild_id, users } => {
            return on_bans_listed(s, guild_id, users);
        },
        ServerMessage::AuditLog { guild_id, entries } => {
            return on_log_listed(s, guild_id, entries);
        },
        ServerMessage::JoinChallenge {
            guild_id,
            gate,
            rules,
            pow_challenge,
            pow_difficulty,
            invite_code,
        } => {
            return on_challenge(
                s,
                guild_id,
                gate,
                rules,
                pow_challenge,
                pow_difficulty,
                invite_code,
            );
        },
        ServerMessage::ChannelCreate(ch) => {
            return on_channel_created(s, ch);
        },
        ServerMessage::ChannelUpdate(ch) => {
            return on_channel_updated(s, ch);
        },
        ServerMessage::ChannelDelete { guild_id, channel_id } => {
            return on_channel_delete(s, guild_id, channel_id);
        },
        ServerMessage::MessageDelete { channel_id, message_id } => {
            on_message_delete(s, channel_id, message_id);
        },
        ServerMessage::ScreenShareState { channel_id, sharers } => {
            on_sharers(s, channel_id, sharers);
        },
        ServerMessage::MemberLeave { guild_id, user_pubkey } => {
            on_member_leave(s, guild_id, user_pubkey.as_str());
        },
        ServerMessage::MediaKey { channel_id, from, epoch, blob } => {
            return on_media_key(s, channel_id, from.as_str(), epoch, blob.as_str());
        },
        ServerMessage::VoiceStateUpdate(vs) => {
            return on_voice_state(s, vs);
        },
        ServerMessage::VoiceToken { channel_id, livekit_url, token } => {
            return on_call_granted(s, channel_id, livekit_url, token);
        },
        ServerMessage::ScreenToken { livekit_url, token, audio_token, video_token } => {
            return on_screens_granted(s, livekit_url, token, audio_token, video_token);
        },
        ServerMessage::Error { message } => {
            return on_refused(s, message);
        },
    }
    effects
}

/// The key of a call is never replaced by one of an earlier epoch, and never
/// dropped, whatever the gateway says.
#[verifier::rlimit(60)]
pub proof fn keys_never_go_back(
    o: AppState,
    msg: ServerMessage,
    now: u64,
    n: AppState,
    e: Seq<Effect>,
    channel: Id,
)
    requires
        applied(o, msg, now, n, e),
        o.media_keys@.dom().contains(channel),
    ensures
        n.media_keys@.dom().contains(channel),
        n.media_keys@[channel].0 >= o.media_keys@[channel].0,
{
}

/// What is ours alone the gateway never changes: who we are, whom we know, what we
/// deleted, and how loud we hear others.
#[verifier::rlimit(60)]
pub proof fn what_is_ours_is_kept(o: AppState, msg: ServerMessage, now: u64, n: AppState, e: Seq<Effect>)
    requires
        applied(o, msg, now, n, e),
    ensures
        n.identity == o.identity,
        n.transport == o.transport,
        n.contacts == o.contacts,
        n.nostr_names == o.nostr_names,
        n.nostr_event_ids == o.nostr_event_ids,
        n.nostr_relays_up == o.nostr_relays_up,
        n.dm_cleared_at == o.dm_cleared_at,
        n.stream_volumes == o.stream_volumes,
        n.stream_muted == o.stream_muted,
        n.audio == o.audio,
{
}

/// Of a guild that was deleted nothing is left: neither it nor its channels and their
/// messages, nor its members, roles, bans, invite or integrations, and it is not the one
/// selected.
pub proof fn a_deleted_guild_is_gone(o: AppState, guild_id: Id, now: u64, n: AppState, e: Seq<Effect>)
    requires
        applied(o, ServerMessage::GuildDelete { guild_id }, now, n, e),
    ensures
        forall|i: int| 0 <= i < n.guilds@.len() ==> (#[trigger] n.guilds@[i]).id != guild_id,
        forall|i: int|
            0 <= i < n.channels@.len() ==> (#[trigger] n.channels@[i]).guild_id != guild_id,
        forall|i: int| 0 <= i < n.members@.len() ==> (#[trigger] n.members@[i]).guild_id != guild_id,
        !n.roles@.dom().contains(guild_id),
        !n.bans@.dom().contains(guild_id),
        !n.invites@.dom().contains(guild_id),
        !n.integrations@.dom().contains(guild_id),
        forall|i: int|
            0 <= i < o.channels@.len() && (#[trigger] o.channels@[i]).guild_id == guild_id
                ==> !n.messages@.dom().contains(o.channels@[i].id),
        n.selected_guild != Some(guild_id),
{
    assert forall|i: int| 0 <= i < n.guilds@.len() implies (#[trigger] n.guilds@[i]).id
        != guild_id by {
        o.guilds@.lemma_filter_pred(guild_not(guild_id), i);
    }
    assert forall|i: int| 0 <= i < n.channels@.len() implies (#[trigger] n.channels@[i]).guild_id
        != guild_id by {
        o.channels@.lemma_filter_pred(channel_elsewhere(guild_id), i);
    }
    assert forall|i: int| 0 <= i < n.members@.len() implies (#[trigger] n.members@[i]).guild_id
        != guild_id by {
        o.members@.lemma_filter_pred(member_elsewhere(guild_id), i);
    }
}

} // verus!
