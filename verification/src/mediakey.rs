//! The keys that calls are encrypted with: how one travels from member to member,
//! and who has been given which.

use crate::crypto::{
    aead_open, aead_opened, aead_seal, aead_sealed, hex_bytes, hex_decode, hex_encode, hex_refusal,
    hex_round_trip, hex_text, names_secret, public_x, random_bytes,
};
use crate::identity::{Identity, media_secret};
use crate::protocol::Id;
use crate::text::{
    append_bytes, be32, key_outcome, opt_str, push_be32, same, text_before, text_lt, text_lt_total,
    text_lt_trans, to_array,
};
use vstd::prelude::*;
use vstd::slice::*;
use vstd::string::*;
use vstd::utf8::*;

verus! {

pub const KEY_LEN: usize = 32;

pub const NONCE_LEN: usize = 24;

/// A key of `KEY_LEN` bytes. Which bytes is chance, so that nothing else can be said of
/// them.
pub fn generate() -> (r: [u8; 32])
    ensures
        r@.len() == KEY_LEN,
{
    to_array(random_bytes(KEY_LEN).as_slice())
}

/// What a sealed key is bound to: its purpose, its epoch and its recipient.
pub open spec fn binding(epoch: u32, recipient: Seq<char>) -> Seq<u8> {
    encode_utf8("dioxusfun/media-key/v1"@) + be32(epoch) + encode_utf8(recipient)
}

fn aad(epoch: u32, recipient: &str) -> (r: Vec<u8>)
    ensures
        r@ == binding(epoch, recipient@),
{
    let mut out: Vec<u8> = Vec::new();
    append_bytes(&mut out, "dioxusfun/media-key/v1".as_bytes());
    push_be32(&mut out, epoch);
    append_bytes(&mut out, recipient.as_bytes());
    assert(out@ =~= binding(epoch, recipient@));
    out
}

/// The blob that carries a key under a shared secret and a nonce.
pub open spec fn sealed_blob(
    key: Seq<u8>,
    shared: Seq<u8>,
    nonce: Seq<u8>,
    epoch: u32,
    recipient: Seq<char>,
) -> Seq<char> {
    hex_text(nonce + aead_sealed(shared, nonce, key, binding(epoch, recipient)))
}

/// What the holder of a secret and a name finds in a blob from a sender.
pub open spec fn opened_blob(
    blob: Seq<char>,
    from: Seq<char>,
    epoch: u32,
    secret: Seq<u8>,
    our_pubkey: Seq<char>,
) -> Result<Seq<u8>, Seq<char>> {
    match hex_bytes(blob) {
        None => Err("sealed key not hex: "@ + hex_refusal(blob)),
        Some(raw) => if raw.len() <= NONCE_LEN {
            Err("sealed key is too short to contain anything"@)
        } else {
            match media_secret(secret, from) {
                Err(e) => Err(e),
                Ok(shared) => match aead_opened(
                    shared,
                    raw.subrange(0, 24),
                    raw.subrange(24, raw.len() as int),
                    binding(epoch, our_pubkey),
                ) {
                    None => Err("this sealed key is not for us, or has been tampered with"@),
                    Some(key) => if key.len() == KEY_LEN {
                        Ok(key)
                    } else {
                        Err("sealed key had the wrong length"@)
                    },
                },
            }
        },
    }
}

proof fn be32_tells_apart(a: u32, b: u32)
    requires
        be32(a) == be32(b),
    ensures
        a == b,
{
    assert(be32(a)[0] == be32(b)[0] && be32(a)[1] == be32(b)[1]);
    assert(be32(a)[2] == be32(b)[2] && be32(a)[3] == be32(b)[3]);
    let (x, y) = (a as int, b as int);
    assert(x / 0x100_0000 < 0x100 && y / 0x100_0000 < 0x100);
    assert(x / 0x100_0000 == y / 0x100_0000);
    assert(x / 0x1_0000 % 0x100 == y / 0x1_0000 % 0x100);
    assert(x / 0x100 % 0x100 == y / 0x100 % 0x100);
    assert(x % 0x100 == y % 0x100);
    assert(x / 0x1_0000 / 0x100 == x / 0x100_0000 && y / 0x1_0000 / 0x100 == y / 0x100_0000);
    assert(x / 0x100 / 0x100 == x / 0x1_0000 && y / 0x100 / 0x100 == y / 0x1_0000);
}

/// What a sealed key is bound to tells epochs and readers apart, so that the cipher
/// gets other associated data for any other.
pub proof fn bindings_are_told_apart(
    epoch: u32,
    recipient: Seq<char>,
    other_epoch: u32,
    other: Seq<char>,
)
    requires
        epoch != other_epoch || recipient != other,
    ensures
        binding(epoch, recipient) != binding(other_epoch, other),
{
    let a = binding(epoch, recipient);
    let b = binding(other_epoch, other);
    if a == b {
        let n = encode_utf8("dioxusfun/media-key/v1"@).len() as int;
        assert(a.subrange(n, n + 4) =~= be32(epoch));
        assert(b.subrange(n, n + 4) =~= be32(other_epoch));
        be32_tells_apart(epoch, other_epoch);
        assert(a.skip(n + 4) =~= encode_utf8(recipient));
        assert(b.skip(n + 4) =~= encode_utf8(other));
        encode_utf8_decode_utf8(recipient);
        encode_utf8_decode_utf8(other);
    }
}

/// A sealed key opens by the cipher alone: under the secret shared with the sender it
/// is said to be from, with the epoch and the reader as associated data. Where the
/// cipher refuses these, nothing opens.
pub proof fn a_sealed_key_opens_by_the_cipher(
    blob: Seq<char>,
    from: Seq<char>,
    epoch: u32,
    secret: Seq<u8>,
    our_pubkey: Seq<char>,
)
    ensures
        opened_blob(blob, from, epoch, secret, our_pubkey) matches Ok(key) ==> (hex_bytes(
            blob,
        ) matches Some(raw) && media_secret(secret, from) matches Ok(shared) && aead_opened(
            shared,
            raw.take(24),
            raw.skip(24),
            binding(epoch, our_pubkey),
        ) == Some(key)),
{
    if let Some(raw) = hex_bytes(blob) {
        if raw.len() > NONCE_LEN {
            assert(raw.take(24) =~= raw.subrange(0, 24));
            assert(raw.skip(24) =~= raw.subrange(24, raw.len() as int));
        }
    }
}

/// Seals a key for one member under a given nonce. Whoever holds that member's secret
/// opens it, as long as the sender's name is our own.
pub fn seal_with_nonce(
    key: &[u8; 32],
    nonce: &[u8; 24],
    to_pubkey: &str,
    epoch: u32,
    identity: &Identity,
) -> (r: Result<String, String>)
    ensures
        match media_secret(identity.key(), to_pubkey@) {
            Err(e) => r is Err && r->Err_0@ == e,
            Ok(shared) => r is Ok && r->Ok_0@ == sealed_blob(
                key@,
                shared,
                nonce@,
                epoch,
                to_pubkey@,
            ),
        },
        forall|reader: Seq<u8>| #[trigger]
            names_secret(to_pubkey@, reader) ==> r is Ok && opened_blob(
                r->Ok_0@,
                hex_text(public_x(identity.key())),
                epoch,
                reader,
                to_pubkey@,
            ) == Ok::<Seq<u8>, Seq<char>>(key@),
{
    let shared: [u8; 32] = match identity.shared_secret_with(to_pubkey) {
        Ok(shared) => shared,
        Err(e) => {
            return Err(e);
        },
    };
    let bound: Vec<u8> = aad(epoch, to_pubkey);
    let sealed: Vec<u8> = aead_seal(&shared, nonce, key.as_slice(), bound.as_slice());
    let mut blob: Vec<u8> = slice_to_vec(nonce.as_slice());
    append_bytes(&mut blob, sealed.as_slice());
    let text: String = hex_encode(blob.as_slice());
    proof {
        hex_round_trip(blob@);
        assert(blob@.subrange(0, 24) =~= nonce@);
        assert(blob@.subrange(24, blob@.len() as int) =~= sealed@);
    }
    Ok(text)
}

/// Seals a key for one member under a nonce of chance. Whoever holds that member's
/// secret opens it, as long as the sender's name is our own.
pub fn seal(key: &[u8; 32], to_pubkey: &str, epoch: u32, identity: &Identity) -> (r: Result<
    String,
    String,
>)
    ensures
        match media_secret(identity.key(), to_pubkey@) {
            Err(e) => r is Err && r->Err_0@ == e,
            Ok(shared) => r is Ok && exists|nonce: Seq<u8>|
                nonce.len() == NONCE_LEN && r->Ok_0@ == #[trigger] sealed_blob(
                    key@,
                    shared,
                    nonce,
                    epoch,
                    to_pubkey@,
                ),
        },
        forall|reader: Seq<u8>| #[trigger]
            names_secret(to_pubkey@, reader) ==> r is Ok && opened_blob(
                r->Ok_0@,
                hex_text(public_x(identity.key())),
                epoch,
                reader,
                to_pubkey@,
            ) == Ok::<Seq<u8>, Seq<char>>(key@),
{
    let nonce: [u8; 24] = to_array(random_bytes(NONCE_LEN).as_slice());
    assert(nonce@.len() == NONCE_LEN);
    seal_with_nonce(key, &nonce, to_pubkey, epoch, identity)
}

/// Opens a key that was sealed for us.
pub fn open(blob: &str, from_pubkey: &str, epoch: u32, identity: &Identity) -> (r: Result<
    [u8; 32],
    String,
>)
    ensures
        key_outcome(r) == opened_blob(
            blob@,
            from_pubkey@,
            epoch,
            identity.key(),
            identity.pubkey@,
        ),
{
    let raw: Vec<u8> = match hex_decode(blob) {
        Ok(raw) => raw,
        Err(e) => {
            return Err("sealed key not hex: ".to_owned().concat(e.as_str()));
        },
    };
    if raw.len() <= NONCE_LEN {
        return Err("sealed key is too short to contain anything".to_owned());
    }
    let nonce: [u8; 24] = to_array(slice_subrange(raw.as_slice(), 0, 24));
    let sealed: &[u8] = slice_subrange(raw.as_slice(), 24, raw.len());
    let shared: [u8; 32] = match identity.shared_secret_with(from_pubkey) {
        Ok(shared) => shared,
        Err(e) => {
            return Err(e);
        },
    };
    let bound: Vec<u8> = aad(epoch, identity.pubkey.as_str());
    match aead_open(&shared, &nonce, sealed, bound.as_slice()) {
        None => Err("this sealed key is not for us, or has been tampered with".to_owned()),
        Some(key) => {
            if key.len() == KEY_LEN {
                Ok(to_array(key.as_slice()))
            } else {
                Err("sealed key had the wrong length".to_owned())
            }
        },
    }
}

/// Which epoch was last sent to whom, in which channel.
#[derive(Debug)]
pub struct LedgerEntry {
    pub channel: Id,
    pub to: String,
    pub epoch: u32,
}

/// What has been sent. No member of a channel is entered twice.
#[derive(Debug)]
pub struct Ledger {
    entries: Vec<LedgerEntry>,
}

/// The epochs that entries record, by channel and member.
pub open spec fn recorded(s: Seq<LedgerEntry>) -> Map<(Id, Seq<char>), u32>
    decreases s.len(),
{
    if s.len() == 0 {
        Map::empty()
    } else {
        recorded(s.drop_last()).insert((s.last().channel, s.last().to@), s.last().epoch)
    }
}

/// Whether no member of a channel is entered twice.
pub open spec fn entered_once(s: Seq<LedgerEntry>) -> bool {
    forall|i: int, j: int|
        0 <= i < j < s.len() ==> !(s[i].channel == s[j].channel && (#[trigger] s[i]).to@ == (
        #[trigger] s[j]).to@)
}

proof fn recorded_at(s: Seq<LedgerEntry>, i: int)
    requires
        entered_once(s),
        0 <= i < s.len(),
    ensures
        recorded(s).dom().contains((s[i].channel, s[i].to@)),
        recorded(s)[(s[i].channel, s[i].to@)] == s[i].epoch,
    decreases s.len(),
{
    if i < s.len() - 1 {
        recorded_at(s.drop_last(), i);
        assert(s.drop_last()[i] == s[i]);
    }
}

proof fn recorded_only(s: Seq<LedgerEntry>, k: (Id, Seq<char>))
    requires
        recorded(s).dom().contains(k),
    ensures
        exists|i: int| 0 <= i < s.len() && (#[trigger] s[i]).channel == k.0 && s[i].to@ == k.1,
    decreases s.len(),
{
    if s.len() > 0 {
        if (s.last().channel, s.last().to@) != k {
            recorded_only(s.drop_last(), k);
            let i = choose|i: int|
                0 <= i < s.drop_last().len() && (#[trigger] s.drop_last()[i]).channel == k.0
                    && s.drop_last()[i].to@ == k.1;
            assert(s[i].channel == k.0);
        } else {
            assert(s[s.len() - 1].channel == k.0);
        }
    }
}

proof fn recorded_size(s: Seq<LedgerEntry>)
    requires
        entered_once(s),
    ensures
        recorded(s).dom().finite(),
        recorded(s).dom().len() == s.len(),
    decreases s.len(),
{
    if s.len() > 0 {
        let t = s.drop_last();
        recorded_size(t);
        let k = (s.last().channel, s.last().to@);
        if recorded(t).dom().contains(k) {
            recorded_only(t, k);
            let i = choose|i: int|
                0 <= i < t.len() && (#[trigger] t[i]).channel == k.0 && t[i].to@ == k.1;
            assert(s[i].to@ == s[s.len() - 1].to@);
        }
        assert(recorded(s).dom() =~= recorded(t).dom().insert(k));
    } else {
        assert(recorded(s).dom() =~= Set::empty());
    }
}

/// Whether a member is among those present.
pub open spec fn is_present(present: Seq<String>, who: Seq<char>) -> bool {
    exists|i: int| 0 <= i < present.len() && (#[trigger] present[i])@ == who
}

/// Whether a member is among those present.
pub fn present_has(present: &Vec<String>, who: &str) -> (r: bool)
    ensures
        r == is_present(present@, who@),
{
    let mut i: usize = 0;
    while i < present.len()
        invariant
            i <= present@.len(),
            forall|j: int| 0 <= j < i ==> (#[trigger] present@[j])@ != who@,
        decreases present@.len() - i,
    {
        if same(present[i].as_str(), who) {
            return true;
        }
        i = i + 1;
    }
    false
}

impl View for Ledger {
    type V = Map<(Id, Seq<char>), u32>;

    closed spec fn view(&self) -> Map<(Id, Seq<char>), u32> {
        recorded(self.entries@)
    }
}

/// Whether a key of an epoch is still owed.
pub open spec fn owed(sent: Map<(Id, Seq<char>), u32>, channel: Id, to: Seq<char>, epoch: u32)
    -> bool {
    sent.dom().contains((channel, to)) ==> sent[(channel, to)] < epoch
}

impl Ledger {
    #[verifier::type_invariant]
    spec fn sound(self) -> bool {
        entered_once(self.entries@)
    }

    /// Nothing sent yet.
    pub fn new() -> (r: Ledger)
        ensures
            r@ == Map::<(Id, Seq<char>), u32>::empty(),
    {
        Ledger { entries: Vec::new() }
    }

    fn position(&self, channel: Id, to: &str) -> (r: Option<usize>)
        ensures
            match r {
                Some(i) => i < self.entries@.len() && self.entries@[i as int].channel == channel
                    && self.entries@[i as int].to@ == to@,
                None => forall|i: int|
                    0 <= i < self.entries@.len() ==> !(self.entries@[i].channel == channel && (
                    #[trigger] self.entries@[i]).to@ == to@),
            },
    {
        let mut i: usize = 0;
        while i < self.entries.len()
            invariant
                i <= self.entries@.len(),
                forall|j: int|
                    0 <= j < i ==> !(self.entries@[j].channel == channel && (
                    #[trigger] self.entries@[j]).to@ == to@),
            decreases self.entries@.len() - i,
        {
            if self.entries[i].channel == channel && same(self.entries[i].to.as_str(), to) {
                return Some(i);
            }
            i = i + 1;
        }
        None
    }

    /// Whether a key has to be sent. Asking records nothing: a key that could not
    /// be sealed is still owed.
    pub fn should_send(&self, channel: Id, to: &str, epoch: u32) -> (r: bool)
        ensures
            r == owed(self@, channel, to@, epoch),
    {
        proof {
            use_type_invariant(self);
        }
        match self.position(channel, to) {
            Some(i) => {
                proof {
                    recorded_at(self.entries@, i as int);
                }
                self.entries[i].epoch < epoch
            },
            None => {
                proof {
                    if self@.dom().contains((channel, to@)) {
                        recorded_only(self.entries@, (channel, to@));
                    }
                }
                true
            },
        }
    }

    /// Records that a key of an epoch was sent.
    pub fn mark_sent(&mut self, channel: Id, to: &str, epoch: u32)
        ensures
            final(self)@ == old(self)@.insert((channel, to@), epoch),
    {
        proof {
            use_type_invariant(&*self);
        }
        let ghost before = self.entries@;
        let at: Option<usize> = self.position(channel, to);
        let n: usize = self.entries.len();
        let mut entries: Vec<LedgerEntry> = Vec::new();
        let mut i: usize = 0;
        while i < n
            invariant
                i <= n,
                n == self.entries@.len(),
                self.entries@ == before,
                entered_once(before),
                entries@.len() == i,
                at matches Some(k) ==> k < n && before[k as int].channel == channel
                    && before[k as int].to@ == to@,
                at is None ==> forall|j: int|
                    0 <= j < before.len() ==> !(before[j].channel == channel && (
                    #[trigger] before[j]).to@ == to@),
                forall|j: int|
                    0 <= j < i ==> (#[trigger] entries@[j]).channel == before[j].channel
                        && entries@[j].to@ == before[j].to@,
                recorded(entries@) == if at matches Some(k) && k < i {
                    recorded(before.take(i as int)).insert((channel, to@), epoch)
                } else {
                    recorded(before.take(i as int))
                },
            decreases n - i,
        {
            let replaced: bool = match at {
                Some(k) => k == i,
                None => false,
            };
            let entry: LedgerEntry = LedgerEntry {
                channel: self.entries[i].channel,
                to: self.entries[i].to.clone(),
                epoch: if replaced {
                    epoch
                } else {
                    self.entries[i].epoch
                },
            };
            let ghost was = entries@;
            entries.push(entry);
            proof {
                assert(entries@.drop_last() =~= was);
                assert(before.take(i + 1).drop_last() =~= before.take(i as int));
                let key = (before[i as int].channel, before[i as int].to@);
                if let Some(k) = at {
                    if k < i {
                        assert(before[k as int].to@ == to@);
                        assert(key != (channel, to@));
                        assert(recorded(entries@) =~= recorded(before.take(i + 1)).insert(
                            (channel, to@),
                            epoch,
                        ));
                    } else if k == i {
                        assert(recorded(entries@) =~= recorded(before.take(i + 1)).insert(
                            (channel, to@),
                            epoch,
                        ));
                    }
                }
            }
            i = i + 1;
        }
        assert(before.take(n as int) =~= before);
        if at.is_none() {
            let ghost was = entries@;
            entries.push(LedgerEntry { channel, to: to.to_owned(), epoch });
            assert(entries@.drop_last() =~= was);
        }
        *self = Ledger { entries };
    }

    /// Forgets what was sent in a channel to those who are no longer there, and
    /// says how many entries that were.
    pub fn forget_absent(&mut self, channel: Id, present: &Vec<String>) -> (r: usize)
        ensures
            forall|k: (Id, Seq<char>)|
                #![trigger final(self)@.dom().contains(k)]
                final(self)@.dom().contains(k) <==> old(self)@.dom().contains(k) && (k.0 != channel
                    || is_present(present@, k.1)),
            forall|k: (Id, Seq<char>)|
                #![trigger final(self)@[k]]
                final(self)@.dom().contains(k) ==> final(self)@[k] == old(self)@[k],
            r == old(self)@.dom().len() - final(self)@.dom().len(),
    {
        proof {
            use_type_invariant(&*self);
            recorded_size(self.entries@);
        }
        let ghost before = self.entries@;
        let n: usize = self.entries.len();
        let mut entries: Vec<LedgerEntry> = Vec::new();
        let mut i: usize = 0;
        while i < n
            invariant
                i <= n,
                n == self.entries@.len(),
                self.entries@ == before,
                entered_once(before),
                entered_once(entries@),
                entries@.len() <= i,
                forall|j: int|
                    0 <= j < entries@.len() ==> exists|m: int|
                        0 <= m < i && (#[trigger] before[m]).channel == (
                        #[trigger] entries@[j]).channel && before[m].to@ == entries@[j].to@,
                forall|k: (Id, Seq<char>)|
                    #![trigger recorded(entries@).dom().contains(k)]
                    recorded(entries@).dom().contains(k) <==> recorded(
                        before.take(i as int),
                    ).dom().contains(k) && (k.0 != channel || is_present(present@, k.1)),
                forall|k: (Id, Seq<char>)|
                    #![trigger recorded(entries@)[k]]
                    recorded(entries@).dom().contains(k) ==> recorded(entries@)[k] == recorded(
                        before.take(i as int),
                    )[k],
            decreases n - i,
        {
            let keep: bool = self.entries[i].channel != channel || present_has(
                present,
                self.entries[i].to.as_str(),
            );
            let ghost was = entries@;
            let ghost key = (before[i as int].channel, before[i as int].to@);
            assert(before.take(i + 1).drop_last() =~= before.take(i as int));
            if keep {
                let entry: LedgerEntry = LedgerEntry {
                    channel: self.entries[i].channel,
                    to: self.entries[i].to.clone(),
                    epoch: self.entries[i].epoch,
                };
                entries.push(entry);
                proof {
                    assert(entries@.drop_last() =~= was);
                    assert(before[i as int].channel == entries@[was.len() as int].channel);
                    assert forall|a: int, b: int| 0 <= a < b < entries@.len() implies !(
                    entries@[a].channel == entries@[b].channel && (#[trigger] entries@[a]).to@ == (
                    #[trigger] entries@[b]).to@) by {
                        if b == was.len() {
                            let m = choose|m: int|
                                0 <= m < i && (#[trigger] before[m]).channel == was[a].channel
                                    && before[m].to@ == was[a].to@;
                            assert(before[m].to@ == was[a].to@);
                            assert(before[i as int].to@ == entries@[b].to@);
                        }
                    }
                    assert forall|j: int| 0 <= j < entries@.len() implies exists|m: int|
                        0 <= m < i + 1 && (#[trigger] before[m]).channel == (
                        #[trigger] entries@[j]).channel && before[m].to@ == entries@[j].to@ by {
                        if j < was.len() {
                            let m = choose|m: int|
                                0 <= m < i && (#[trigger] before[m]).channel == was[j].channel
                                    && before[m].to@ == was[j].to@;
                            assert(before[m].channel == entries@[j].channel);
                        } else {
                            assert(before[i as int].channel == entries@[j].channel);
                        }
                    }
                }
            } else {
                proof {
                    if recorded(before.take(i as int)).dom().contains(key) {
                        recorded_only(before.take(i as int), key);
                        let m = choose|m: int|
                            0 <= m < i && (#[trigger] before.take(i as int)[m]).channel == key.0
                                && before.take(i as int)[m].to@ == key.1;
                        assert(before[m].to@ == before[i as int].to@);
                    }
                }
            }
            proof {
                let part = before.take(i + 1);
                let old_part = before.take(i as int);
                assert(recorded(part) == recorded(old_part).insert(key, before[i as int].epoch));
                assert(keep ==> recorded(entries@) == recorded(was).insert(
                    key,
                    before[i as int].epoch,
                ));
                assert forall|k: (Id, Seq<char>)|
                    #![trigger recorded(entries@).dom().contains(k)]
                    recorded(entries@).dom().contains(k) <==> recorded(part).dom().contains(k) && (
                    k.0 != channel || is_present(present@, k.1)) by {
                    let _ = recorded(was).dom().contains(k);
                }
                assert forall|k: (Id, Seq<char>)|
                    #![trigger recorded(entries@)[k]]
                    recorded(entries@).dom().contains(k) implies recorded(entries@)[k] == recorded(
                    part,
                )[k] by {
                    let _ = recorded(was)[k];
                    let _ = recorded(was).dom().contains(k);
                    assert(keep || recorded(was) == recorded(entries@));
                }
            }
            i = i + 1;
        }
        assert(before.take(n as int) =~= before);
        proof {
            recorded_size(entries@);
        }
        let r: usize = n - entries.len();
        *self = Ledger { entries };
        r
    }
}

/// A key is sent once per epoch and member, and a later epoch is always owed.
pub proof fn sent_once(
    sent: Map<(Id, Seq<char>), u32>,
    channel: Id,
    to: Seq<char>,
    epoch: u32,
    other: (Id, Seq<char>),
    other_epoch: u32,
)
    ensures
        !owed(sent.insert((channel, to), epoch), channel, to, epoch),
        forall|later: u32|
            epoch < later ==> #[trigger] owed(
                sent.insert((channel, to), epoch),
                channel,
                to,
                later,
            ),
        other != (channel, to) ==> owed(
            sent.insert((channel, to), epoch),
            other.0,
            other.1,
            other_epoch,
        ) == owed(sent, other.0, other.1, other_epoch),
{
}

/// Who answers for a channel's key: the least of the names present.
pub open spec fn answers_for(present: Seq<String>, who: Option<Seq<char>>) -> bool {
    match who {
        None => present.len() == 0,
        Some(w) => is_present(present, w) && forall|i: int|
            0 <= i < present.len() ==> !text_lt((#[trigger] present[i])@, w),
    }
}

/// Who answers for a channel's key.
pub fn designated(present: &Vec<String>) -> (r: Option<&str>)
    ensures
        answers_for(present@, opt_str(r)),
{
    if present.len() == 0 {
        return None;
    }
    let mut best: usize = 0;
    let mut i: usize = 1;
    proof {
        text_lt_total(present@[0]@, present@[0]@);
    }
    while i < present.len()
        invariant
            1 <= i <= present@.len(),
            best < i,
            forall|j: int| 0 <= j < i ==> !text_lt((#[trigger] present@[j])@, present@[best as int]@),
        decreases present@.len() - i,
    {
        if text_before(present[i].as_str(), present[best].as_str()) {
            proof {
                let new = present@[i as int]@;
                let old_best = present@[best as int]@;
                text_lt_total(new, new);
                assert forall|j: int| 0 <= j < i + 1 implies !text_lt(
                    (#[trigger] present@[j])@,
                    new,
                ) by {
                    if j < i && text_lt(present@[j]@, new) {
                        text_lt_trans(present@[j]@, new, old_best);
                    }
                }
            }
            best = i;
        }
        i = i + 1;
    }
    Some(present[best].as_str())
}

/// Whoever is named from whichever side, it is the same member: only one name
/// can answer for a given set of members, in whatever order they are listed.
pub proof fn designation_agrees(a: Seq<String>, b: Seq<String>, x: Seq<char>, y: Seq<char>)
    requires
        forall|who: Seq<char>| is_present(a, who) == is_present(b, who),
        answers_for(a, Some(x)),
        answers_for(b, Some(y)),
    ensures
        x == y,
{
    assert(is_present(b, x));
    assert(is_present(a, y));
    let i = choose|i: int| 0 <= i < b.len() && (#[trigger] b[i])@ == x;
    let j = choose|j: int| 0 <= j < a.len() && (#[trigger] a[j])@ == y;
    assert(!text_lt(b[i]@, y));
    assert(!text_lt(a[j]@, x));
    text_lt_total(x, y);
}

} // verus!
