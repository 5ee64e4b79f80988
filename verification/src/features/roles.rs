//! The dialog in which a guild's roles are made and changed.

use crate::protocol::{ClientMessage, Id, Permission, Role};
use crate::text::{trim, trimmed};
use vstd::prelude::*;
use vstd::string::*;

verus! {

/// The form of a role. With nothing being edited, a new one is made.
#[derive(Debug)]
pub struct RoleForm {
    pub editing: Option<Id>,
    pub name: String,
    pub color: Option<String>,
    pub permissions: Vec<Permission>,
}

/// Whether a form is as it was at first.
pub open spec fn is_blank(f: RoleForm) -> bool {
    f.editing is None && f.name@.len() == 0 && f.color is None && f.permissions@.len() == 0
}

/// Whether only the owner of a guild may hand a grant out.
pub fn owner_only(p: Permission) -> (r: bool)
    ensures
        r == (p == Permission::ManageRoles || p == Permission::ManageGuild),
{
    match p {
        Permission::ManageRoles => true,
        Permission::ManageGuild => true,
        Permission::Other(_) => false,
    }
}

/// Whether a grant's box cannot be ticked.
pub fn locked(p: Permission, is_owner: bool) -> (r: bool)
    ensures
        r == ((p == Permission::ManageRoles || p == Permission::ManageGuild) && !is_owner),
{
    owner_only(p) && !is_owner
}

/// Grants with one ticked or unticked: the first of it is taken out, or it is put
/// behind the others.
pub open spec fn toggled(s: Seq<Permission>, p: Permission, t: Seq<Permission>) -> bool {
    if s.contains(p) {
        exists|i: int|
            0 <= i < s.len() && #[trigger] s[i] == p && (forall|j: int|
                0 <= j < i ==> #[trigger] s[j] != p) && t == s.remove(i)
    } else {
        t == s.push(p)
    }
}

impl RoleForm {
    /// An empty form.
    pub fn new() -> (r: RoleForm)
        ensures
            is_blank(r),
    {
        RoleForm { editing: None, name: String::new(), color: None, permissions: Vec::new() }
    }

    /// Takes a role up for editing.
    pub fn edit(&mut self, role: Role)
        ensures
            *final(self) == (RoleForm {
                editing: Some(role.id),
                name: role.name,
                color: role.color,
                permissions: role.permissions,
            }),
    {
        *self = RoleForm {
            editing: Some(role.id),
            name: role.name,
            color: role.color,
            permissions: role.permissions,
        };
    }

    /// Ticks or unticks a grant.
    pub fn toggle(&mut self, p: Permission)
        ensures
            *final(self) == (RoleForm { permissions: final(self).permissions, ..*old(self) }),
            toggled(old(self).permissions@, p, final(self).permissions@),
    {
        let ghost before = self.permissions@;
        let mut i: usize = 0;
        while i < self.permissions.len()
            invariant
                i <= self.permissions@.len(),
                *self == *old(self),
                before == self.permissions@,
                forall|j: int| 0 <= j < i ==> #[trigger] before[j] != p,
            decreases self.permissions@.len() - i,
        {
            if self.permissions[i] == p {
                assert(before[i as int] == p);
                let _ = self.permissions.remove(i);
                return ;
            }
            i = i + 1;
        }
        assert(!before.contains(p));
        self.permissions.push(p);
    }

    /// The message that saves the form, unless it has no name; it is then empty
    /// again.
    pub fn submit(&mut self, guild_id: Id) -> (r: Option<ClientMessage>)
        ensures
            trimmed(old(self).name@).len() == 0 ==> r is None && *final(self) == *old(self),
            trimmed(old(self).name@).len() > 0 ==> is_blank(*final(self)) && match old(
                self,
            ).editing {
                Some(id) => r matches Some(
                    ClientMessage::UpdateRole { guild_id: g, role_id, name, color, permissions },
                ) && g == guild_id && role_id == id && name@ == trimmed(old(self).name@) && color
                    == old(self).color && permissions == old(self).permissions,
                None => r matches Some(
                    ClientMessage::CreateRole { guild_id: g, name, color, permissions },
                ) && g == guild_id && name@ == trimmed(old(self).name@) && color == old(
                    self,
                ).color && permissions == old(self).permissions,
            },
    {
        let name: String = trim(self.name.as_str());
        if name.as_str().unicode_len() == 0 {
            return None;
        }
        let mut form: RoleForm = RoleForm::new();
        core::mem::swap(self, &mut form);
        match form.editing {
            Some(role_id) => Some(
                ClientMessage::UpdateRole {
                    guild_id,
                    role_id,
                    name,
                    color: form.color,
                    permissions: form.permissions,
                },
            ),
            None => Some(
                ClientMessage::CreateRole {
                    guild_id,
                    name,
                    color: form.color,
                    permissions: form.permissions,
                },
            ),
        }
    }

    /// The heading of the form and the text of its button.
    pub fn captions(&self) -> (r: (&'static str, &'static str))
        ensures
            self.editing is Some ==> r.0@ == "Edit role"@ && r.1@ == "Save role"@,
            self.editing is None ==> r.0@ == "New role"@ && r.1@ == "Create role"@,
    {
        if self.editing.is_some() {
            ("Edit role", "Save role")
        } else {
            ("New role", "Create role")
        }
    }
}

/// Ticking a grant twice leaves the grants as they were, where none is there
/// twice.
pub proof fn toggling_twice(
    s: Seq<Permission>,
    p: Permission,
    t: Seq<Permission>,
    u: Seq<Permission>,
)
    requires
        s.no_duplicates(),
        toggled(s, p, t),
        toggled(t, p, u),
    ensures
        t.contains(p) == !s.contains(p),
        u.contains(p) == s.contains(p),
        forall|q: Permission| q != p ==> #[trigger] u.contains(q) == s.contains(q),
{
    if s.contains(p) {
        let i = choose|i: int|
            0 <= i < s.len() && #[trigger] s[i] == p && (forall|j: int|
                0 <= j < i ==> #[trigger] s[j] != p) && t == s.remove(i);
        assert forall|k: int| 0 <= k < t.len() implies t[k] != p by {
            if k < i {
                assert(t[k] == s[k]);
            } else {
                assert(t[k] == s[k + 1]);
                assert(s[i] != s[k + 1]);
            }
        }
        assert(!t.contains(p));
        assert(u == t.push(p));
        assert(u[t.len() as int] == p);
        assert forall|q: Permission| q != p implies #[trigger] u.contains(q) == s.contains(q) by {
            if s.contains(q) {
                let k = choose|k: int| 0 <= k < s.len() && s[k] == q;
                if k < i {
                    assert(u[k] == q);
                } else {
                    assert(u[k - 1] == q);
                }
            }
            if u.contains(q) {
                let k = choose|k: int| 0 <= k < u.len() && u[k] == q;
                if k < i {
                    assert(s[k] == q);
                } else {
                    assert(s[k + 1] == q);
                }
            }
        }
    } else {
        assert(t == s.push(p));
        assert(t[s.len() as int] == p);
        assert(t.contains(p));
        let i = choose|i: int|
            0 <= i < t.len() && #[trigger] t[i] == p && (forall|j: int|
                0 <= j < i ==> #[trigger] t[j] != p) && u == t.remove(i);
        if i < s.len() {
            assert(s[i] == p);
        }
        assert(u =~= s);
    }
}

} // verus!
