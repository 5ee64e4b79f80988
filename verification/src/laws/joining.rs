//! What holds of the ways to a server: what is typed, what is shared, and what is asked
//! of it for pictures.

use crate::gateway::emoji_seq;
use crate::net::{
    Dial, DiscoverEntry, EMOJI_PER_REQUEST, HostView, Hunt, IMAGES_PER_REQUEST, address_of,
    ascii_lower, ascii_lowered, batches, batches_cover, channel_pictures, emojis_sought,
    entry_addrs, first_place, guild_pictures, http_base, hunt_in, is_share, joined,
    message_pictures, named_pictures, normalized, not_blank, picture, pictures_sought, pieces,
    profile_pictures, requests_due, resolved, settled, shares_key, socket_dial, sought_all,
    unslashed, url_reading, url_socket, with_ws,
};
use crate::protocol::{ClientMessage, Guild, GuildEmoji, Id, Message, Profile};
use crate::state::{AppState, Transport};
use crate::table::{as_map, keyed_once, map_at, map_only};
use crate::text::{begins_with, decimal, plain_ends, texts, trimmed, white_space};
use vstd::prelude::*;
use vstd::string::*;

verus! {

/// An address gets the scheme of a socket and keeps everything behind its own: one that
/// was meant to be secure stays secure, and no other becomes so.
pub proof fn a_scheme_is_kept_secure(rest: Seq<char>)
    ensures
        with_ws("wss://"@ + rest) == "wss://"@ + rest,
        with_ws("https://"@ + rest) == "wss://"@ + rest,
        with_ws("ws://"@ + rest) == "ws://"@ + rest,
        with_ws("http://"@ + rest) == "ws://"@ + rest,
        http_base("wss://"@ + rest) == "https://"@ + rest,
        http_base("ws://"@ + rest) == "http://"@ + rest,
{
    reveal_strlit("wss://");
    reveal_strlit("https://");
    reveal_strlit("ws://");
    reveal_strlit("http://");
    let a = "wss://"@ + rest;
    assert(a.take(6) =~= "wss://"@);
    assert(a.take(5)[2] == 's' && "ws://"@[2] == ':');
    assert(a.skip(6) =~= rest);
    let b = "https://"@ + rest;
    assert(b.take(8) =~= "https://"@);
    assert(b.skip(8) =~= rest);
    assert(b.take(7)[4] == 's' && "http://"@[4] == ':');
    assert(b.take(5)[0] == 'h' && "ws://"@[0] == 'w');
    assert(b.take(6)[0] == 'h' && "wss://"@[0] == 'w');
    let c = "ws://"@ + rest;
    assert(c.take(5) =~= "ws://"@);
    assert(c.skip(5) =~= rest);
    if c.len() >= 6 {
        assert(c.take(6)[2] == ':' && "wss://"@[2] == 's');
    }
    let d = "http://"@ + rest;
    assert(d.take(7) =~= "http://"@);
    assert(d.skip(7) =~= rest);
    assert(d.take(5)[0] == 'h' && "ws://"@[0] == 'w');
    assert(d.take(6)[0] == 'h' && "wss://"@[0] == 'w');
}

/// What has no scheme is reached in the clear, and all of it is kept.
pub proof fn a_bare_address_is_plain(s: Seq<char>)
    requires
        !begins_with(s, "ws://"@) && !begins_with(s, "wss://"@),
        !begins_with(s, "http://"@) && !begins_with(s, "https://"@),
    ensures
        with_ws(s) == "ws://"@ + s,
{
}

/// An address is read alike with blanks around it and slashes behind it, and it is
/// refused exactly where nothing is left of it, or where it is no URL.
pub proof fn blanks_and_slashes_do_not_matter(s: Seq<char>)
    requires
        s.len() > 0 ==> !white_space(s[0]),
    ensures
        unslashed(s.push('/')) == unslashed(s),
        unslashed(s).len() > 0 ==> unslashed(s).last() != '/',
        begins_with(s, unslashed(s)),
        forall|i: int| unslashed(s).len() <= i < s.len() ==> #[trigger] s[i] == '/',
        normalized(s.push('/')) == normalized(s) || (s.len() > 0 && white_space(s.last())),
        normalized(Seq::empty()) == Err::<Seq<char>, Seq<char>>("server URL is required"@),
{
    assert(s.push('/').drop_last() =~= s);
    unslashed_facts(s);
    assert(trimmed(Seq::<char>::empty()) =~= Seq::empty());
    if !(s.len() > 0 && white_space(s.last())) {
        plain_ends(s);
        plain_ends(s.push('/'));
    }
}

proof fn unslashed_facts(s: Seq<char>)
    ensures
        unslashed(s).len() > 0 ==> unslashed(s).last() != '/',
        begins_with(s, unslashed(s)),
        forall|i: int| unslashed(s).len() <= i < s.len() ==> #[trigger] s[i] == '/',
    decreases s.len(),
{
    if s.len() > 0 && s.last() == '/' {
        let t = s.drop_last();
        unslashed_facts(t);
        assert(s.take(unslashed(s).len() as int) =~= t.take(unslashed(t).len() as int));
        assert forall|i: int| unslashed(s).len() <= i < s.len() implies #[trigger] s[i] == '/' by {
            if i < t.len() {
                assert(t[i] == s[i]);
            }
        }
    } else {
        assert(s.take(s.len() as int) =~= s);
    }
}

/// A socket is dialled only over TLS, or in the clear to this machine: a name in its
/// first block of addresses, its own in the longer ones, or its own name in any case of
/// letters. Which it is, is what the connection is shown as; and the login is bound to
/// the host and the port of what is dialled.
pub proof fn sockets_are_safe(raw: Seq<char>, r: Result<Dial, String>)
    requires
        socket_dial(raw, r),
        r is Ok,
    ensures
        r->Ok_0 is Socket,
        ({
            let url = r->Ok_0->Socket_url@;
            let read = url_reading(url)->Ok_0;
            &&& normalized(raw) == Ok::<Seq<char>, Seq<char>>(url)
            &&& url_reading(url) is Ok
            &&& read.0 == "ws"@ || read.0 == "wss"@
            &&& read.0 == "wss"@ ==> r->Ok_0->transport == Transport::Proxied
            &&& read.0 == "ws"@ ==> r->Ok_0->transport == Transport::Loopback && match read.1 {
                HostView::V4(n) => 0x7f00_0000 <= n <= 0x7fff_ffff,
                HostView::V6(n) => n == 1,
                HostView::Domain(name) => ascii_lowered(name) == "localhost"@,
                HostView::Missing => false,
            }
            &&& url_socket(url) matches Some(at) && r->Ok_0->origin@ == at.0 + ":"@ + decimal(
                at.1 as nat,
            )
        }),
{
    reveal_strlit("ws");
    reveal_strlit("wss");
    assert("ws"@.len() != "wss"@.len());
}

/// A plain socket to any other machine is refused, and so is any other scheme.
pub proof fn nothing_travels_in_the_clear(raw: Seq<char>, r: Result<Dial, String>)
    requires
        socket_dial(raw, r),
        normalized(raw) is Ok,
        url_reading(normalized(raw)->Ok_0) is Ok,
        ({
            let read = url_reading(normalized(raw)->Ok_0)->Ok_0;
            read.0 != "wss"@ && !(read.0 == "ws"@ && match read.1 {
                HostView::V4(n) => 0x7f00_0000 <= n <= 0x7fff_ffff,
                HostView::V6(n) => n == 1,
                HostView::Domain(name) => ascii_lowered(name) == "localhost"@,
                HostView::Missing => false,
            })
        }),
    ensures
        r is Err,
{
}

/// Letters in lower case: the capitals are brought down to them, and everything else
/// stays.
pub proof fn lowering_keeps_the_rest(s: Seq<char>)
    ensures
        ascii_lowered(s).len() == s.len(),
        forall|i: int|
            0 <= i < s.len() && !('A' <= #[trigger] s[i] <= 'Z') ==> ascii_lowered(s)[i] == s[i],
        forall|i: int|
            0 <= i < s.len() && 'A' <= #[trigger] s[i] <= 'Z' ==> ascii_lowered(s)[i] as int
                == s[i] as int + 32,
{
    assert forall|i: int| 0 <= i < s.len() && 'A' <= #[trigger] s[i] <= 'Z' implies ascii_lowered(
        s,
    )[i] as int == s[i] as int + 32 by {
        lower_is_below(s[i]);
    }
}

proof fn lower_is_below(c: char)
    requires
        'A' <= c <= 'Z',
    ensures
        ascii_lower(c) as int == c as int + 32,
{
    let n = c as u32;
    assert(65 <= n <= 90);
}

proof fn pieces_plain(s: Seq<char>, c: char)
    requires
        forall|i: int| 0 <= i < s.len() ==> #[trigger] s[i] != c,
    ensures
        pieces(s, c) == seq![s],
    decreases s.len(),
{
    if s.len() > 0 {
        let t = s.drop_last();
        assert forall|i: int| 0 <= i < t.len() implies #[trigger] t[i] != c by {
            assert(s[i] != c);
        }
        pieces_plain(t, c);
        assert(s[s.len() - 1] != c);
        assert(pieces(t, c).last() == t);
        assert(t.push(s.last()) =~= s);
        assert(pieces(s, c) =~= seq![s]);
    } else {
        assert(s =~= Seq::empty());
        assert(pieces(s, c) =~= seq![s]);
    }
}

proof fn pieces_some(s: Seq<char>, c: char)
    ensures
        pieces(s, c).len() > 0,
    decreases s.len(),
{
    if s.len() > 0 {
        pieces_some(s.drop_last(), c);
    }
}

proof fn pieces_join(a: Seq<char>, c: char, b: Seq<char>)
    ensures
        pieces(a.push(c) + b, c) == pieces(a, c) + pieces(b, c),
    decreases b.len(),
{
    let all = a.push(c) + b;
    if b.len() == 0 {
        assert(all =~= a.push(c));
        assert(a.push(c).drop_last() =~= a);
        assert(pieces(all, c) =~= pieces(a, c) + pieces(b, c));
    } else {
        let t = b.drop_last();
        pieces_join(a, c, t);
        pieces_some(t, c);
        assert(all.drop_last() =~= a.push(c) + t);
        assert(all.last() == b.last());
        assert(pieces(all, c) =~= pieces(a, c) + pieces(b, c));
    }
}

/// Texts with a character between them.
pub open spec fn joined_by(items: Seq<Seq<char>>, c: char) -> Seq<char>
    decreases items.len(),
{
    if items.len() == 0 {
        Seq::empty()
    } else if items.len() == 1 {
        items[0]
    } else {
        joined_by(items.drop_last(), c).push(c) + items.last()
    }
}

proof fn joined_splits(items: Seq<Seq<char>>, c: char)
    requires
        items.len() > 0,
        forall|i: int, j: int|
            0 <= i < items.len() && 0 <= j < items[i].len() ==> #[trigger] items[i][j] != c,
    ensures
        pieces(joined_by(items, c), c) == items,
    decreases items.len(),
{
    if items.len() == 1 {
        assert forall|j: int| 0 <= j < items[0].len() implies #[trigger] items[0][j] != c by {}
        pieces_plain(items[0], c);
        assert(seq![items[0]] =~= items);
    } else {
        let t = items.drop_last();
        assert forall|i: int, j: int| 0 <= i < t.len() && 0 <= j < t[i].len() implies #[trigger]
            t[i][j] != c by {
            assert(items[i][j] != c);
        }
        joined_splits(t, c);
        let last = items.last();
        assert forall|j: int| 0 <= j < last.len() implies #[trigger] last[j] != c by {
            assert(items[items.len() - 1][j] != c);
        }
        pieces_plain(last, c);
        pieces_join(joined_by(t, c), c, last);
        assert(t + seq![last] =~= items);
    }
}

proof fn filter_all(items: Seq<Seq<char>>)
    requires
        forall|i: int| 0 <= i < items.len() ==> (#[trigger] items[i]).len() > 0,
    ensures
        items.filter(not_blank()) == items,
    decreases items.len(),
{
    reveal(Seq::filter);
    if items.len() > 0 {
        let t = items.drop_last();
        assert forall|i: int| 0 <= i < t.len() implies (#[trigger] t[i]).len() > 0 by {
            assert(items[i].len() > 0);
        }
        filter_all(t);
        assert(items[items.len() - 1].len() > 0);
        assert(t.push(items.last()) =~= items);
    } else {
        assert(items.filter(not_blank()) =~= items);
    }
}

/// What is shared is what is dialled: the share string of a key and of addresses is read
/// as that key and those addresses, all of them and in their order.
pub proof fn a_share_string_is_read_back(
    key: Seq<char>,
    addrs: Seq<Seq<char>>,
    read_key: Seq<char>,
    read_addrs: Seq<Seq<char>>,
)
    requires
        key.len() > 0,
        forall|i: int| 0 <= i < key.len() ==> #[trigger] key[i] != '@',
        addrs.len() > 0,
        forall|i: int| 0 <= i < addrs.len() ==> (#[trigger] addrs[i]).len() > 0,
        forall|i: int, j: int|
            0 <= i < addrs.len() && 0 <= j < addrs[i].len() ==> #[trigger] addrs[i][j] != ';'
                && !white_space(addrs[i][j]),
        shares_key("quic://"@ + key + seq!['@'] + joined_by(addrs, ';'), read_key, read_addrs),
    ensures
        is_share("quic://"@ + key + seq!['@'] + joined_by(addrs, ';')),
        read_key == key,
        read_addrs == addrs,
{
    reveal_strlit("quic://");
    let list = joined_by(addrs, ';');
    let raw = "quic://"@ + key + seq!['@'] + list;
    joined_ends(addrs);
    assert(raw[0] == 'q');
    assert(raw.last() == list.last());
    plain_ends(raw);
    let rest = raw.skip(7);
    assert(raw.take(7) =~= "quic://"@);
    assert(rest =~= key + seq!['@'] + list);
    let n = key.len() as int;
    assert(first_place(rest, '@', n)) by {
        assert(rest[n] == '@');
        assert forall|j: int| 0 <= j < n implies #[trigger] rest[j] != '@' by {
            assert(rest[j] == key[j]);
        }
    }
    let i = choose|i: int|
        {
            &&& #[trigger] first_place(rest, '@', i)
            &&& i > 0
            &&& read_key == rest.take(i)
            &&& read_addrs == pieces(rest.skip(i + 1), ';').filter(not_blank())
        };
    assert(i == n) by {
        if i < n {
            assert(rest[i] == '@');
            assert(rest[i] == key[i]);
        } else if i > n {
            assert(rest[n] != '@');
        }
    }
    assert(rest.take(n) =~= key);
    assert(rest.skip(n + 1) =~= list);
    joined_splits(addrs, ';');
    filter_all(addrs);
}

proof fn joined_ends(items: Seq<Seq<char>>)
    requires
        items.len() > 0,
        forall|i: int| 0 <= i < items.len() ==> (#[trigger] items[i]).len() > 0,
        forall|i: int, j: int|
            0 <= i < items.len() && 0 <= j < items[i].len() ==> !white_space(#[trigger] items[i][j]),
    ensures
        joined_by(items, ';').len() > 0,
        !white_space(joined_by(items, ';').last()),
{
    let last = items[items.len() - 1];
    assert(last.len() > 0);
    assert(!white_space(items[items.len() - 1][last.len() - 1]));
    assert(joined_by(items, ';').last() == last.last());
}

/// A host that a directory names is dialled at every address it gives, in their order,
/// and through its relay, which is named once.
pub proof fn a_host_is_dialled_everywhere(entry: DiscoverEntry)
    ensures
        entry_addrs(entry).len() >= entry.transport_addrs@.len(),
        entry_addrs(entry).take(entry.transport_addrs@.len() as int) == entry.transport_addrs@,
        entry.relay_url matches Some(relay) ==> texts(entry_addrs(entry)).contains(relay@),
        entry.relay_url is None ==> entry_addrs(entry) == entry.transport_addrs@,
        entry_addrs(entry).len() <= entry.transport_addrs@.len() + 1,
        entry_addrs(entry).len() > entry.transport_addrs@.len() ==> (entry.relay_url matches Some(
            relay,
        ) && !texts(entry.transport_addrs@).contains(relay@)),
{
    let all = entry_addrs(entry);
    let given = entry.transport_addrs@;
    assert(all.take(given.len() as int) =~= given);
    if let Some(relay) = entry.relay_url {
        if !texts(given).contains(relay@) {
            assert(texts(all)[given.len() as int] == relay@);
        }
    }
}

/// A picture goes out as it is, but for a link, which never does.
pub proof fn no_link_goes_out(p: Option<String>)
    ensures
        picture(p) matches Some(s) ==> p == Some(s) && !begins_with(s@, "http://"@)
            && !begins_with(s@, "https://"@),
        p matches Some(s) ==> (!begins_with(s@, "http://"@) && !begins_with(s@, "https://"@))
            ==> picture(p) == p,
        p is None ==> picture(p) is None,
{
}

/// Whether a picture is one that the gateway holds under an address.
pub open spec fn is_held_at(p: Option<String>, a: Seq<char>) -> bool {
    p matches Some(raw) && raw@ == "media:"@ + a
}

/// Whether an address is that of a guild's emoji.
pub open spec fn emoji_at(s: AppState, a: Seq<char>) -> bool {
    exists|g: Id, i: int|
        s.guild_emojis@.dom().contains(g) && 0 <= i < s.guild_emojis@[g]@.len() && (
        #[trigger] s.guild_emojis@[g]@[i]).image@ == a
}

/// Whether somebody's profile shows what lies at an address.
pub open spec fn profile_shows(s: AppState, a: Seq<char>) -> bool {
    exists|k: Seq<char>| #[trigger]
        s.profiles@.dom().contains(k) && (is_held_at(s.profiles@[k].avatar, a) || is_held_at(
            s.profiles@[k].banner,
            a,
        ))
}

/// Whether a guild shows what lies at an address.
pub open spec fn guild_shows(s: AppState, a: Seq<char>) -> bool {
    exists|i: int|
        0 <= i < s.guilds@.len() && (is_held_at((#[trigger] s.guilds@[i]).icon_image, a)
            || is_held_at(s.guilds@[i].banner, a))
}

/// Whether a message shows what lies at an address.
pub open spec fn message_shows(s: AppState, a: Seq<char>) -> bool {
    exists|c: Id, i: int|
        s.messages@.dom().contains(c) && 0 <= i < s.messages@[c]@.len() && is_held_at(
            (#[trigger] s.messages@[c]@[i]).image,
            a,
        )
}

/// Whether the tables that name pictures are sound: their entries are what they map.
pub open spec fn tables_are_sound(s: AppState) -> bool {
    &&& keyed_once(s.guild_emojis.list()) && as_map(s.guild_emojis.list()) == s.guild_emojis@
    &&& keyed_once(s.profiles.list()) && as_map(s.profiles.list()) == s.profiles@
    &&& keyed_once(s.messages.list()) && as_map(s.messages.list()) == s.messages@
}

proof fn held_address(p: Option<String>, a: Seq<char>)
    requires
        is_held_at(p, a),
    ensures
        address_of(p) == seq![a],
{
    let raw = p->Some_0@;
    assert(raw.take("media:"@.len() as int) =~= "media:"@);
    assert(raw.skip("media:"@.len() as int) =~= a);
}

proof fn emoji_is_listed(list: Seq<(Id, Vec<GuildEmoji>)>, k: int, i: int)
    requires
        0 <= k < list.len(),
        0 <= i < list[k].1@.len(),
    ensures
        emoji_seq(list).contains(list[k].1@[i].image@),
    decreases list.len(),
{
    let rest = list.drop_last();
    let images = list.last().1@.map_values(|e: GuildEmoji| e.image@);
    let all = emoji_seq(list);
    let a = list[k].1@[i].image@;
    if k < rest.len() {
        emoji_is_listed(rest, k, i);
        let j = choose|j: int| 0 <= j < emoji_seq(rest).len() && emoji_seq(rest)[j] == a;
        assert(all[j] == a);
    } else {
        assert(images[i] == a);
        assert(all[emoji_seq(rest).len() + i] == a);
    }
}

proof fn in_either<T>(x: Seq<T>, y: Seq<T>, z: Seq<T>, a: T)
    requires
        x.contains(a) || y.contains(a) || z.contains(a),
    ensures
        (x + y + z).contains(a),
{
    let all = x + y + z;
    if x.contains(a) {
        let j = choose|j: int| 0 <= j < x.len() && x[j] == a;
        assert(all[j] == a);
    } else if y.contains(a) {
        let j = choose|j: int| 0 <= j < y.len() && y[j] == a;
        assert(all[x.len() + j] == a);
    } else {
        let j = choose|j: int| 0 <= j < z.len() && z[j] == a;
        assert(all[x.len() + y.len() + j] == a);
    }
}

proof fn profile_is_listed(list: Seq<(Seq<char>, Profile)>, k: int, a: Seq<char>)
    requires
        0 <= k < list.len(),
        is_held_at(list[k].1.avatar, a) || is_held_at(list[k].1.banner, a),
    ensures
        profile_pictures(list).contains(a),
    decreases list.len(),
{
    let rest = list.drop_last();
    let x = profile_pictures(rest);
    let y = address_of(list.last().1.avatar);
    let z = address_of(list.last().1.banner);
    if k < rest.len() {
        profile_is_listed(rest, k, a);
    } else if is_held_at(list[k].1.avatar, a) {
        held_address(list[k].1.avatar, a);
        assert(y[0] == a);
    } else {
        held_address(list[k].1.banner, a);
        assert(z[0] == a);
    }
    in_either(x, y, z, a);
}

proof fn guild_is_listed(list: Seq<Guild>, k: int, a: Seq<char>)
    requires
        0 <= k < list.len(),
        is_held_at(list[k].icon_image, a) || is_held_at(list[k].banner, a),
    ensures
        guild_pictures(list).contains(a),
    decreases list.len(),
{
    let rest = list.drop_last();
    let x = guild_pictures(rest);
    let y = address_of(list.last().icon_image);
    let z = address_of(list.last().banner);
    if k < rest.len() {
        guild_is_listed(rest, k, a);
    } else if is_held_at(list[k].icon_image, a) {
        held_address(list[k].icon_image, a);
        assert(y[0] == a);
    } else {
        held_address(list[k].banner, a);
        assert(z[0] == a);
    }
    in_either(x, y, z, a);
}

proof fn message_is_listed(list: Seq<Message>, k: int, a: Seq<char>)
    requires
        0 <= k < list.len(),
        is_held_at(list[k].image, a),
    ensures
        message_pictures(list).contains(a),
    decreases list.len(),
{
    let rest = list.drop_last();
    let x = message_pictures(rest);
    let y = address_of(list.last().image);
    if k < rest.len() {
        message_is_listed(rest, k, a);
    } else {
        held_address(list[k].image, a);
        assert(y[0] == a);
    }
    in_either(x, y, Seq::empty(), a);
    assert(x + y + Seq::<Seq<char>>::empty() =~= x + y);
}

proof fn channel_is_listed(list: Seq<(Id, Vec<Message>)>, k: int, i: int, a: Seq<char>)
    requires
        0 <= k < list.len(),
        0 <= i < list[k].1@.len(),
        is_held_at(list[k].1@[i].image, a),
    ensures
        channel_pictures(list).contains(a),
    decreases list.len(),
{
    let rest = list.drop_last();
    let x = channel_pictures(rest);
    let y = message_pictures(list.last().1@);
    if k < rest.len() {
        channel_is_listed(rest, k, i, a);
    } else {
        message_is_listed(list[k].1@, i, a);
    }
    in_either(x, y, Seq::empty(), a);
    assert(x + y + Seq::<Seq<char>>::empty() =~= x + y);
}

proof fn sought_is_wanted(
    h: Hunt,
    addresses: Seq<Seq<char>>,
    disk: Map<Seq<char>, String>,
    now: u64,
    a: Seq<char>,
)
    requires
        !disk.dom().contains(a),
    ensures
        ({
            let r = sought_all(h, addresses, disk, now);
            &&& h.wanted.contains(a) ==> r.wanted.contains(a)
            &&& settled(h, a, now) ==> settled(r, a, now)
            &&& addresses.contains(a) ==> settled(r, a, now)
            &&& !settled(h, a, now) && settled(r, a, now) ==> r.wanted.contains(a)
        }),
    decreases addresses.len(),
{
    if addresses.len() > 0 {
        let rest = addresses.drop_last();
        let last = addresses.last();
        let p = sought_all(h, rest, disk, now);
        let r = sought_all(h, addresses, disk, now);
        sought_is_wanted(h, rest, disk, now, a);
        if p.wanted.contains(a) {
            let j = choose|j: int| 0 <= j < p.wanted.len() && p.wanted[j] == a;
            assert(r.wanted[j] == a);
        }
        if addresses.contains(a) && last != a {
            let j = choose|j: int| 0 <= j < addresses.len() && addresses[j] == a;
            assert(rest[j] == a);
        }
        if last == a && !settled(p, a, now) {
            assert(r.wanted[p.wanted.len() as int] == a);
        }
    }
}

proof fn joined_has(lists: Seq<Seq<Seq<char>>>, a: Seq<char>)
    requires
        joined(lists).contains(a),
    ensures
        exists|i: int| 0 <= i < lists.len() && (#[trigger] lists[i]).contains(a),
    decreases lists.len(),
{
    let all = joined(lists);
    let j = choose|j: int| 0 <= j < all.len() && all[j] == a;
    let first = lists[0];
    if j < first.len() {
        assert(first[j] == a);
        assert(lists[0].contains(a));
    } else {
        let rest = lists.drop_first();
        assert(joined(rest)[j - first.len()] == a);
        joined_has(rest, a);
        let i = choose|i: int| 0 <= i < rest.len() && (#[trigger] rest[i]).contains(a);
        assert(lists[i + 1] == rest[i]);
    }
}

/// Every picture that is shown somewhere is looked for: the emojis of all guilds, what
/// profiles and guilds show, and what messages hold. It is held from then on or counts
/// as asked for; and unless it was held, asked for a moment ago or lies on disk, some
/// request that goes out now names it.
pub proof fn every_named_picture_is_looked_for(
    o: AppState,
    disk: Map<Seq<char>, String>,
    now: u64,
    n: AppState,
    r: Seq<ClientMessage>,
    a: Seq<char>,
)
    requires
        tables_are_sound(o),
        resolved(o, disk, now, n, r),
        !disk.dom().contains(a),
        emoji_at(o, a) || profile_shows(o, a) || guild_shows(o, a) || message_shows(o, a),
    ensures
        n.emoji_images@.dom().contains(a) || n.emoji_requested@.dom().contains(a),
        !o.emoji_images@.dom().contains(a) && !(o.emoji_requested@.dom().contains(a) && now
            < o.emoji_requested@[a] + 8_000) ==> exists|i: int|
            0 <= i < r.len() && (#[trigger] r[i]) is FetchEmoji && texts(
                r[i]->FetchEmoji_images@,
            ).contains(a),
{
    let start = hunt_in(o, Seq::empty());
    let emojis = emoji_seq(o.guild_emojis.list());
    let named = named_pictures(o);
    let none = Map::<Seq<char>, String>::empty();
    let h1 = emojis_sought(o, disk, now);
    let mid = Hunt { wanted: Seq::empty(), ..h1 };
    let h2 = pictures_sought(o, disk, now);
    assert(emojis.contains(a) || named.contains(a)) by {
        if emoji_at(o, a) {
            let (g, i) = choose|g: Id, i: int|
                o.guild_emojis@.dom().contains(g) && 0 <= i < o.guild_emojis@[g]@.len() && (
                #[trigger] o.guild_emojis@[g]@[i]).image@ == a;
            let k = map_only(o.guild_emojis.list(), g);
            map_at(o.guild_emojis.list(), k);
            emoji_is_listed(o.guild_emojis.list(), k, i);
        } else {
            if profile_shows(o, a) {
                let who = choose|who: Seq<char>| #[trigger]
                    o.profiles@.dom().contains(who) && (is_held_at(o.profiles@[who].avatar, a)
                        || is_held_at(o.profiles@[who].banner, a));
                let k = map_only(o.profiles.list(), who);
                map_at(o.profiles.list(), k);
                profile_is_listed(o.profiles.list(), k, a);
            } else if guild_shows(o, a) {
                let i = choose|i: int|
                    0 <= i < o.guilds@.len() && (is_held_at((#[trigger] o.guilds@[i]).icon_image, a)
                        || is_held_at(o.guilds@[i].banner, a));
                guild_is_listed(o.guilds@, i, a);
            } else {
                let (c, i) = choose|c: Id, i: int|
                    o.messages@.dom().contains(c) && 0 <= i < o.messages@[c]@.len() && is_held_at(
                        (#[trigger] o.messages@[c]@[i]).image,
                        a,
                    );
                let k = map_only(o.messages.list(), c);
                map_at(o.messages.list(), k);
                channel_is_listed(o.messages.list(), k, i, a);
            }
            in_either(
                profile_pictures(o.profiles.list()),
                guild_pictures(o.guilds@),
                channel_pictures(o.messages.list()),
                a,
            );
        }
    }
    sought_is_wanted(start, emojis, disk, now, a);
    sought_is_wanted(mid, named, none, now, a);
    assert(settled(h1, a, now) == settled(mid, a, now));
    if !settled(start, a, now) {
        let due = requests_due(o, disk, now);
        let first = batches(h1.wanted, EMOJI_PER_REQUEST as nat);
        let second = batches(h2.wanted, IMAGES_PER_REQUEST as nat);
        batches_cover(h1.wanted, EMOJI_PER_REQUEST as nat);
        batches_cover(h2.wanted, IMAGES_PER_REQUEST as nat);
        assert(h1.wanted.contains(a) || h2.wanted.contains(a));
        let i: int = if h1.wanted.contains(a) {
            joined_has(first, a);
            choose|i: int| 0 <= i < first.len() && (#[trigger] first[i]).contains(a)
        } else {
            joined_has(second, a);
            first.len() + choose|i: int| 0 <= i < second.len() && (#[trigger] second[i]).contains(a)
        };
        assert(due[i].contains(a));
        assert(r[i] is FetchEmoji && texts(r[i]->FetchEmoji_images@) == due[i]);
    }
}

} // verus!
