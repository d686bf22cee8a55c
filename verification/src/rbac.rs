//! Role checks on the claims of a validated token.

use crate::auth::Claims;
use crate::text::{ascii_lowercase, eq_ignore_ascii_case, str_eq};
use vstd::prelude::*;

verus! {

/// The two roles that access rules distinguish.
#[derive(Debug, Clone, Copy, PartialEq, Eq, Structural)]
pub enum Role {
    Admin,
    User,
}

impl Role {
    /// The name of the role, in lower case.
    pub open spec fn name(self) -> Seq<char> {
        match self {
            Role::Admin => "admin"@,
            Role::User => "user"@,
        }
    }

    /// The role that a name stands for: `admin` and `Admin` are the
    /// administrator, every other name a plain user.
    pub open spec fn of_name(s: Seq<char>) -> Role {
        if s == "admin"@ || s == "Admin"@ {
            Role::Admin
        } else {
            Role::User
        }
    }

    /// The name of the role, in lower case.
    pub fn as_str(&self) -> (r: &'static str)
        ensures
            r@ == self.name(),
    {
        match self {
            Role::Admin => "admin",
            Role::User => "user",
        }
    }
}

impl<'a> From<&'a str> for Role {
    fn from(s: &'a str) -> (r: Role) {
        if str_eq(s, "admin") || str_eq(s, "Admin") {
            Role::Admin
        } else {
            Role::User
        }
    }
}

impl<'a> vstd::std_specs::convert::FromSpecImpl<&'a str> for Role {
    open spec fn obeys_from_spec() -> bool {
        true
    }

    open spec fn from_spec(s: &'a str) -> Role {
        Role::of_name(s@)
    }
}

/// Whether one of the names in `names` is the name of `role`, letters of
/// ASCII compared without regard to case.
pub open spec fn names_role(names: Seq<String>, role: Role) -> bool {
    exists|i: int|
        0 <= i < names.len() && ascii_lowercase((#[trigger] names[i])@) == ascii_lowercase(
            role.name(),
        )
}

/// Whether the claims name `role` among their roles.
pub open spec fn has_role_spec(claims: Claims, role: Role) -> bool {
    match claims.roles {
        Some(names) => names_role(names@, role),
        None => false,
    }
}

/// Whether the claims grant `role`.
pub fn has_role(claims: &Claims, role: Role) -> (r: bool)
    ensures
        r == has_role_spec(*claims, role),
{
    match &claims.roles {
        Some(names) => {
            let wanted = role.as_str();
            let mut i: usize = 0;
            while i < names.len()
                invariant
                    i <= names.len(),
                    wanted@ == role.name(),
                    claims.roles == Some(*names),
                    forall|k: int|
                        0 <= k < i ==> ascii_lowercase((#[trigger] names@[k])@) != ascii_lowercase(
                            role.name(),
                        ),
                decreases names.len() - i,
            {
                if eq_ignore_ascii_case(names[i].as_str(), wanted) {
                    return true;
                }
                i += 1;
            }
            false
        },
        None => false,
    }
}

/// Why a request was turned away: an HTTP status and a short message.
#[derive(Debug, Clone, Copy, PartialEq, Eq)]
pub struct Rejection {
    pub status: u16,
    pub message: &'static str,
}

/// A request that carries validated claims.
#[derive(Debug, Clone)]
pub struct Authenticated(pub Claims);

impl Authenticated {
    /// Admits a request with claims; one without is turned away with status
    /// 401.
    pub fn from_claims(claims: Option<Claims>) -> (r: Result<Authenticated, Rejection>)
        ensures
            match claims {
                Some(c) => r == Ok::<Authenticated, Rejection>(Authenticated(c)),
                None => r is Err && r->Err_0.status == 401 && r->Err_0.message@
                    == "Unauthorized"@,
            },
    {
        match claims {
            Some(c) => Ok(Authenticated(c)),
            None => Err(Rejection { status: 401, message: "Unauthorized" }),
        }
    }
}

/// Lets a request pass that holds `role`; any other is turned away with
/// status 403.
pub fn ensure_role(claims: &Claims, role: Role) -> (r: Result<(), Rejection>)
    ensures
        match r {
            Ok(_) => has_role_spec(*claims, role),
            Err(e) => !has_role_spec(*claims, role) && e.status == 403 && e.message@
                == "Forbidden"@,
        },
{
    if has_role(claims, role) {
        Ok(())
    } else {
        Err(Rejection { status: 403, message: "Forbidden" })
    }
}

} // verus!
