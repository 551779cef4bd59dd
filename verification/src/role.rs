//! The access-role enumeration and the designated administrator account
//! name: configuration data consumed elsewhere as a three-valued permission
//! tag.

use vstd::prelude::*;
use crate::kv::str_eq;

verus! {

/// The account name that carries the administrator role.
pub const ADMIN_USERNAME: &'static str = "admin";

/// A caller's access level.
#[derive(Clone, Copy, Debug, PartialEq, Eq, Structural, Hash, PartialOrd)]
pub enum Role {
    NoAccess,
    User,
    Admin,
}

/// The numeric tag of a role.
pub open spec fn role_index(r: Role) -> u64 {
    match r {
        Role::NoAccess => 0,
        Role::User => 1,
        Role::Admin => 2,
    }
}

/// The lower-case name of a role.
pub open spec fn role_name(r: Role) -> Seq<char> {
    match r {
        Role::NoAccess => "none"@,
        Role::User => "user"@,
        Role::Admin => "admin"@,
    }
}

impl Role {
    /// The numeric tag of this role.
    pub fn index(&self) -> (i: u64)
        ensures
            i == role_index(*self),
    {
        match self {
            Role::NoAccess => 0,
            Role::User => 1,
            Role::Admin => 2,
        }
    }

    /// The role with the given numeric tag, if the tag is in range.
    pub fn from_index(i: u64) -> (r: Option<Role>)
        ensures
            match r {
                Some(role) => role_index(role) == i,
                None => i > 2,
            },
    {
        if i == 0 {
            Some(Role::NoAccess)
        } else if i == 1 {
            Some(Role::User)
        } else if i == 2 {
            Some(Role::Admin)
        } else {
            None
        }
    }

    /// The lower-case name of this role.
    pub fn name(&self) -> (s: String)
        ensures
            s@ == role_name(*self),
    {
        match self {
            Role::NoAccess => "none".to_owned(),
            Role::User => "user".to_owned(),
            Role::Admin => "admin".to_owned(),
        }
    }

    /// The role with the given lower-case name, if any.
    pub fn from_name(s: &str) -> (r: Option<Role>)
        ensures
            match r {
                Some(role) => role_name(role) == s@,
                None => s@ != "none"@ && s@ != "user"@ && s@ != "admin"@,
            },
    {
        if str_eq(s, "none") {
            Some(Role::NoAccess)
        } else if str_eq(s, "user") {
            Some(Role::User)
        } else if str_eq(s, "admin") {
            Some(Role::Admin)
        } else {
            None
        }
    }
}

impl Default for Role {
    /// A fresh permission tag grants nothing.
    fn default() -> (r: Self)
        ensures
            r == Role::NoAccess,
    {
        Role::NoAccess
    }
}

/// The numeric tag determines the role: `from_index` inverts `index`.
pub proof fn lemma_role_index_round_trip(r: Role)
    ensures
        role_index(r) <= 2,
        forall|other: Role| role_index(other) == role_index(r) ==> other == r,
{
    assert forall|other: Role| role_index(other) == role_index(r) implies other == r by {
        match other {
            Role::NoAccess => {},
            Role::User => {},
            Role::Admin => {},
        }
    }
}

} // verus!
