//! NIP-02 contact lists.
//!
//! The list is public and replaceable: publishing a part of it deletes everyone
//! missing, so it is always read, changed and written whole.

use crate::crypto::{SecretKey, hex_text, is_hex_digit, public_x};
use crate::nostr::event::{Event, sign_with};
use crate::text::{chars_of, opt_str, opt_text, same, text_rows, texts};
use vstd::prelude::*;
use vstd::string::*;

verus! {

pub const KIND_CONTACTS: u16 = 3;

#[derive(Debug, Clone, PartialEq, Eq)]
pub struct Contact {
    pub pubkey: String,
    pub relay: Option<String>,
    pub petname: Option<String>,
}

/// What a contact says, as mathematics.
pub struct ContactView {
    pub pubkey: Seq<char>,
    pub relay: Option<Seq<char>>,
    pub petname: Option<Seq<char>>,
}

impl View for Contact {
    type V = ContactView;

    open spec fn view(&self) -> ContactView {
        ContactView {
            pubkey: self.pubkey@,
            relay: opt_text(self.relay),
            petname: opt_text(self.petname),
        }
    }
}

#[derive(Debug, Clone, PartialEq, Eq)]
pub struct ContactList {
    pub contacts: Vec<Contact>,
}

impl View for ContactList {
    type V = Seq<ContactView>;

    open spec fn view(&self) -> Seq<ContactView> {
        self.contacts@.map_values(|c: Contact| c@)
    }
}

/// Whether `i` is the place of the first contact with a key.
pub open spec fn first_at(s: Seq<ContactView>, pubkey: Seq<char>, i: int) -> bool {
    &&& 0 <= i < s.len()
    &&& s[i].pubkey == pubkey
    &&& forall|j: int| 0 <= j < i ==> (#[trigger] s[j]).pubkey != pubkey
}

/// Whether a key is among the contacts.
pub open spec fn listed(s: Seq<ContactView>, pubkey: Seq<char>) -> bool {
    exists|i: int| 0 <= i < s.len() && (#[trigger] s[i]).pubkey == pubkey
}

/// Whether no key occurs twice.
pub open spec fn distinct(s: Seq<ContactView>) -> bool {
    forall|i: int, j: int|
        0 <= i < j < s.len() ==> (#[trigger] s[i]).pubkey != (#[trigger] s[j]).pubkey
}

/// Whether `t` is `s` with a contact put in the place of the first with its key,
/// or behind the others when there is none.
pub open spec fn replaced(s: Seq<ContactView>, c: ContactView, t: Seq<ContactView>) -> bool {
    if listed(s, c.pubkey) {
        exists|i: int| #[trigger] first_at(s, c.pubkey, i) && t == s.update(i, c)
    } else {
        t == s.push(c)
    }
}

/// The contacts that do not have a key.
pub open spec fn others(pubkey: Seq<char>) -> spec_fn(ContactView) -> bool {
    |c: ContactView| c.pubkey != pubkey
}

impl Default for ContactList {
    fn default() -> (r: ContactList)
        ensures
            r@ == Seq::<ContactView>::empty(),
    {
        let r: ContactList = ContactList { contacts: Vec::new() };
        assert(r@ =~= Seq::<ContactView>::empty());
        r
    }
}

impl ContactList {
    /// The place of the first contact with a key.
    fn position(&self, pubkey: &str) -> (r: Option<usize>)
        ensures
            match r {
                Some(i) => first_at(self@, pubkey@, i as int),
                None => !listed(self@, pubkey@),
            },
    {
        let mut i: usize = 0;
        while i < self.contacts.len()
            invariant
                i <= self.contacts@.len(),
                forall|j: int| 0 <= j < i ==> (#[trigger] self@[j]).pubkey != pubkey@,
            decreases self.contacts@.len() - i,
        {
            assert(self@[i as int] == self.contacts@[i as int]@);
            if same(self.contacts[i].pubkey.as_str(), pubkey) {
                return Some(i);
            }
            i = i + 1;
        }
        None
    }

    /// The list with a contact added, or put in the place of the one it updates.
    pub fn with(self, contact: Contact) -> (r: ContactList)
        ensures
            replaced(self@, contact@, r@),
    {
        let ghost before = self@;
        let ghost added = contact@;
        let at: Option<usize> = self.position(contact.pubkey.as_str());
        let mut contacts: Vec<Contact> = self.contacts;
        match at {
            Some(i) => {
                contacts[i] = contact;
                let r: ContactList = ContactList { contacts };
                assert(r@ =~= before.update(i as int, added));
                r
            },
            None => {
                contacts.push(contact);
                let r: ContactList = ContactList { contacts };
                assert(r@ =~= before.push(added));
                r
            },
        }
    }

    /// The list without the contacts that have a key.
    pub fn without(self, pubkey: &str) -> (r: ContactList)
        ensures
            r@ == self@.filter(others(pubkey@)),
    {
        let ghost keep = others(pubkey@);
        let ghost before = self@;
        let mut rest: Vec<Contact> = self.contacts;
        let mut kept: Vec<Contact> = Vec::new();
        let mut left: Vec<Contact> = Vec::new();
        while rest.len() > 0
            invariant
                rest@.map_values(|c: Contact| c@) + reversed(left@) == before,
            decreases rest@.len(),
        {
            let ghost was = rest@;
            let ghost was_left = left@;
            let last: Contact = rest.pop().unwrap();
            left.push(last);
            assert(was.map_values(|c: Contact| c@) =~= rest@.map_values(|c: Contact| c@).push(
                last@,
            ));
            assert(reversed(left@) =~= seq![last@] + reversed(was_left));
            assert(rest@.map_values(|c: Contact| c@) + reversed(left@) =~= before);
        }
        assert(before =~= reversed(left@));
        let ghost mut done: int = 0;
        assert(before.take(0).filter(keep) =~= Seq::empty()) by {
            reveal(Seq::filter);
        }
        assert(kept@.map_values(|c: Contact| c@) =~= Seq::empty());
        while left.len() > 0
            invariant
                done + left@.len() == before.len(),
                0 <= done,
                reversed(left@) == before.skip(done),
                keep == others(pubkey@),
                kept@.map_values(|c: Contact| c@) == before.take(done).filter(keep),
            decreases left@.len(),
        {
            let ghost was = left@;
            let ghost was_kept = kept@;
            let next: Contact = left.pop().unwrap();
            assert(next@ == before[done]) by {
                assert(reversed(was)[0] == was.last()@);
                assert(before.skip(done)[0] == before[done]);
            }
            proof {
                reveal(Seq::filter);
                assert(before.take(done + 1).drop_last() =~= before.take(done));
                assert(before.take(done + 1).last() == next@);
                assert(reversed(left@) =~= reversed(was).skip(1));
                assert(before.skip(done).skip(1) =~= before.skip(done + 1));
            }
            if !same(next.pubkey.as_str(), pubkey) {
                kept.push(next);
                assert(kept@.map_values(|c: Contact| c@) =~= was_kept.map_values(
                    |c: Contact| c@,
                ).push(next@));
            }
            proof {
                done = done + 1;
            }
        }
        assert(before.take(done) =~= before);
        ContactList { contacts: kept }
    }

    /// Whether a key is among the contacts.
    pub fn contains(&self, pubkey: &str) -> (r: bool)
        ensures
            r == listed(self@, pubkey@),
    {
        self.position(pubkey).is_some()
    }

    /// The name that we gave to a key.
    pub fn petname(&self, pubkey: &str) -> (r: Option<&str>)
        ensures
            !listed(self@, pubkey@) ==> r is None,
            forall|i: int| #[trigger]
                first_at(self@, pubkey@, i) ==> opt_str(r) == self@[i].petname,
    {
        match self.position(pubkey) {
            Some(i) => {
                assert(self@[i as int] == self.contacts@[i as int]@);
                match &self.contacts[i].petname {
                    Some(name) => Some(name.as_str()),
                    None => None,
                }
            },
            None => None,
        }
    }
}

/// Contacts from the last to the first.
pub open spec fn reversed(s: Seq<Contact>) -> Seq<ContactView> {
    Seq::new(s.len(), |i: int| s[s.len() - 1 - i]@)
}

/// Editing a contact does not duplicate it: where no key occurred twice, none
/// does after a contact is added, the contact is listed, and every other key is
/// listed exactly as it was.
pub proof fn editing_keeps_distinct(s: Seq<ContactView>, c: ContactView, t: Seq<ContactView>)
    requires
        distinct(s),
        replaced(s, c, t),
    ensures
        distinct(t),
        listed(t, c.pubkey),
        t.len() == s.len() + if listed(s, c.pubkey) {
            0int
        } else {
            1
        },
        forall|pk: Seq<char>| pk != c.pubkey ==> listed(t, pk) == listed(s, pk),
{
    if listed(s, c.pubkey) {
        let i = choose|i: int| #[trigger] first_at(s, c.pubkey, i) && t == s.update(i, c);
        assert(t[i] == c);
        assert forall|pk: Seq<char>| pk != c.pubkey implies listed(t, pk) == listed(s, pk) by {
            if listed(s, pk) {
                let k = choose|k: int| 0 <= k < s.len() && (#[trigger] s[k]).pubkey == pk;
                assert(t[k].pubkey == pk);
            }
            if listed(t, pk) {
                let k = choose|k: int| 0 <= k < t.len() && (#[trigger] t[k]).pubkey == pk;
                assert(s[k].pubkey == pk);
            }
        }
    } else {
        assert(t[s.len() as int] == c);
        assert forall|i: int, j: int| 0 <= i < j < t.len() implies (#[trigger] t[i]).pubkey != (
        #[trigger] t[j]).pubkey by {
            if j == s.len() {
                assert(s[i].pubkey != c.pubkey);
            }
        }
        assert forall|pk: Seq<char>| pk != c.pubkey implies listed(t, pk) == listed(s, pk) by {
            if listed(s, pk) {
                let k = choose|k: int| 0 <= k < s.len() && (#[trigger] s[k]).pubkey == pk;
                assert(t[k].pubkey == pk);
            }
            if listed(t, pk) {
                let k = choose|k: int| 0 <= k < t.len() && (#[trigger] t[k]).pubkey == pk;
                assert(s[k].pubkey == pk);
            }
        }
    }
}

/// Removing a contact removes it and keeps the others.
pub proof fn removing_keeps_the_others(s: Seq<ContactView>, pubkey: Seq<char>)
    ensures
        !listed(s.filter(others(pubkey)), pubkey),
        forall|pk: Seq<char>|
            pk != pubkey ==> listed(s.filter(others(pubkey)), pk) == listed(
                s,
                pk,
            ),
    decreases s.len(),
{
    reveal(Seq::filter);
    let keep = others(pubkey);
    let t = s.filter(keep);
    if s.len() > 0 {
        removing_keeps_the_others(s.drop_last(), pubkey);
        let u = s.drop_last().filter(keep);
        assert forall|pk: Seq<char>| pk != pubkey implies listed(t, pk) == listed(s, pk) by {
            if listed(s, pk) {
                let k = choose|k: int| 0 <= k < s.len() && (#[trigger] s[k]).pubkey == pk;
                if k == s.len() - 1 {
                    assert(t.last().pubkey == pk);
                    assert(t[t.len() - 1].pubkey == pk);
                } else {
                    assert(s.drop_last()[k].pubkey == pk);
                    assert(listed(u, pk) == listed(s.drop_last(), pk));
                    let m = choose|m: int| 0 <= m < u.len() && (#[trigger] u[m]).pubkey == pk;
                    assert(t[m].pubkey == pk);
                }
            }
            if listed(t, pk) {
                let k = choose|k: int| 0 <= k < t.len() && (#[trigger] t[k]).pubkey == pk;
                if k < u.len() {
                    assert(u[k].pubkey == pk);
                    assert(listed(u, pk) == listed(s.drop_last(), pk));
                    let m = choose|m: int|
                        0 <= m < s.drop_last().len() && (#[trigger] s.drop_last()[m]).pubkey == pk;
                    assert(s[m].pubkey == pk);
                } else {
                    assert(s[s.len() - 1].pubkey == pk);
                }
            }
        }
        if listed(t, pubkey) {
            let k = choose|k: int| 0 <= k < t.len() && (#[trigger] t[k]).pubkey == pubkey;
            if k < u.len() {
                assert(u[k].pubkey == pubkey);
            }
        }
    }
}

/// An optional text, with the empty text for nothing.
pub open spec fn or_empty(o: Option<Seq<char>>) -> Seq<char> {
    match o {
        Some(s) => s,
        None => Seq::empty(),
    }
}

/// The tag of a contact.
pub open spec fn contact_row(c: ContactView) -> Seq<Seq<char>> {
    seq!["p"@, c.pubkey, or_empty(c.relay), or_empty(c.petname)]
}

/// Whether a text is a public key: 64 hexadecimal digits.
pub open spec fn is_pubkey(s: Seq<char>) -> bool {
    s.len() == 64 && forall|i: int| 0 <= i < s.len() ==> is_hex_digit(#[trigger] s[i])
}

/// A row's text at a place, when there is one and it is not empty.
pub open spec fn non_empty(row: Seq<Seq<char>>, i: int) -> Option<Seq<char>> {
    if i < row.len() && row[i].len() > 0 {
        Some(row[i])
    } else {
        None
    }
}

/// Whether a tag names a contact.
pub open spec fn names_contact(row: Seq<Seq<char>>) -> bool {
    row.len() > 1 && row[0] == "p"@ && is_pubkey(row[1])
}

/// The contacts that tags name, in order. Malformed entries are passed over.
pub open spec fn contacts_in(rows: Seq<Seq<Seq<char>>>) -> Seq<ContactView>
    decreases rows.len(),
{
    if rows.len() == 0 {
        Seq::empty()
    } else {
        let row = rows.last();
        let before = contacts_in(rows.drop_last());
        if names_contact(row) {
            before.push(
                ContactView {
                    pubkey: row[1],
                    relay: non_empty(row, 2),
                    petname: non_empty(row, 3),
                },
            )
        } else {
            before
        }
    }
}

fn text_or_empty(o: &Option<String>) -> (r: String)
    ensures
        r@ == or_empty(opt_text(*o)),
{
    match o {
        Some(s) => s.clone(),
        None => String::new(),
    }
}

/// Publishes the whole list.
pub fn contact_list_event(secret: &SecretKey, list: &ContactList, now: i64) -> (r: Event)
    ensures
        r.verifies(),
        r.pubkey@ == hex_text(public_x(secret@)),
        r.created_at == now,
        r.kind == KIND_CONTACTS,
        r.content@ == Seq::<char>::empty(),
        text_rows(r.tags@) == list@.map_values(|c: ContactView| contact_row(c)),
{
    let mut tags: Vec<Vec<String>> = Vec::new();
    let mut i: usize = 0;
    while i < list.contacts.len()
        invariant
            i <= list.contacts@.len(),
            tags@.len() == i,
            forall|j: int|
                0 <= j < i ==> texts((#[trigger] tags@[j])@) == contact_row(list.contacts@[j]@),
        decreases list.contacts@.len() - i,
    {
        let contact: &Contact = &list.contacts[i];
        let mut tag: Vec<String> = Vec::new();
        tag.push("p".to_owned());
        tag.push(contact.pubkey.clone());
        tag.push(text_or_empty(&contact.relay));
        tag.push(text_or_empty(&contact.petname));
        assert(texts(tag@) =~= contact_row(contact@));
        tags.push(tag);
        i = i + 1;
    }
    assert(text_rows(tags@) =~= list@.map_values(|c: ContactView| contact_row(c)));
    sign_with(secret, now, KIND_CONTACTS, tags, String::new())
}

fn is_hexdigit(c: char) -> (r: bool)
    ensures
        r == is_hex_digit(c),
{
    ('0' <= c && c <= '9') || ('a' <= c && c <= 'f') || ('A' <= c && c <= 'F')
}

/// Whether a text is 64 hexadecimal digits.
pub fn is_pubkey_text(s: &str) -> (r: bool)
    ensures
        r == is_pubkey(s@),
{
    let cs: Vec<char> = chars_of(s);
    if cs.len() != 64 {
        return false;
    }
    let mut i: usize = 0;
    while i < cs.len()
        invariant
            i <= cs@.len(),
            cs@ == s@,
            forall|j: int| 0 <= j < i ==> is_hex_digit(#[trigger] cs@[j]),
        decreases cs@.len() - i,
    {
        if !is_hexdigit(cs[i]) {
            assert(!is_hex_digit(s@[i as int]));
            return false;
        }
        i = i + 1;
    }
    true
}

fn non_empty_at(row: &Vec<String>, i: usize) -> (r: Option<String>)
    ensures
        opt_text(r) == non_empty(texts(row@), i as int),
{
    if i < row.len() && row[i].as_str().unicode_len() > 0 {
        Some(row[i].clone())
    } else {
        None
    }
}

/// The list that an event of the right kind carries.
pub fn parse_contact_list(event: &Event) -> (r: ContactList)
    ensures
        r@ == if event.kind == KIND_CONTACTS {
            contacts_in(text_rows(event.tags@))
        } else {
            Seq::empty()
        },
{
    if event.kind != KIND_CONTACTS {
        return ContactList::default();
    }
    let ghost rows = text_rows(event.tags@);
    let mut contacts: Vec<Contact> = Vec::new();
    let mut i: usize = 0;
    assert(rows.take(0) =~= Seq::empty());
    assert(contacts@.map_values(|c: Contact| c@) =~= Seq::empty());
    while i < event.tags.len()
        invariant
            i <= event.tags@.len(),
            rows == text_rows(event.tags@),
            contacts@.map_values(|c: Contact| c@) == contacts_in(rows.take(i as int)),
        decreases event.tags@.len() - i,
    {
        let row: &Vec<String> = &event.tags[i];
        let ghost before = contacts@;
        assert(rows.take(i + 1).drop_last() =~= rows.take(i as int));
        assert(rows.take(i + 1).last() == texts(row@));
        if row.len() > 1 && same(row[0].as_str(), "p") && is_pubkey_text(row[1].as_str()) {
            let contact: Contact = Contact {
                pubkey: row[1].clone(),
                relay: non_empty_at(row, 2),
                petname: non_empty_at(row, 3),
            };
            contacts.push(contact);
            assert(contacts@.map_values(|c: Contact| c@) =~= before.map_values(
                |c: Contact| c@,
            ).push(contact@));
        }
        i = i + 1;
    }
    assert(rows.take(i as int) =~= rows);
    ContactList { contacts }
}

/// Whether a contact survives being published: its key is one, and neither its
/// relay nor its name is an empty text.
pub open spec fn publishable(c: ContactView) -> bool {
    is_pubkey(c.pubkey) && c.relay != Some(Seq::<char>::empty()) && c.petname != Some(
        Seq::<char>::empty(),
    )
}

/// Reading a published list gives the list that was published.
pub proof fn contact_list_round_trip(list: Seq<ContactView>)
    requires
        forall|i: int| 0 <= i < list.len() ==> publishable(#[trigger] list[i]),
    ensures
        contacts_in(list.map_values(|c: ContactView| contact_row(c))) == list,
    decreases list.len(),
{
    let rows = list.map_values(|c: ContactView| contact_row(c));
    if list.len() > 0 {
        assert forall|i: int| 0 <= i < list.drop_last().len() implies publishable(
            #[trigger] list.drop_last()[i],
        ) by {
            assert(publishable(list[i]));
        }
        contact_list_round_trip(list.drop_last());
        assert(rows.drop_last() =~= list.drop_last().map_values(
            |c: ContactView| contact_row(c),
        ));
        let c = list.last();
        assert(publishable(list[list.len() - 1]));
        let row = rows.last();
        assert(row == contact_row(c));
        if let Some(r) = c.relay {
            assert(r.len() > 0) by {
                if r.len() == 0 {
                    assert(r =~= Seq::<char>::empty());
                }
            }
        }
        if let Some(r) = c.petname {
            assert(r.len() > 0) by {
                if r.len() == 0 {
                    assert(r =~= Seq::<char>::empty());
                }
            }
        }
        assert(non_empty(row, 2) == c.relay);
        assert(non_empty(row, 3) == c.petname);
        assert(list.drop_last().push(c) =~= list);
    } else {
        assert(list =~= Seq::empty());
    }
}

} // verus!
