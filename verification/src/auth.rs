//! Who the current user is and which roles they hold.

use crate::text::{lowercase, str_eq, to_lowercase};
use vstd::prelude::*;

verus! {

/// Name of the cookie that carries the session identifier.
pub const SESSION_ID: &'static str = "session_id";

/// An opaque session identifier.
pub struct SessionId(pub String);

/// The claims of a validated token.
#[derive(Debug, Clone, PartialEq, Eq)]
pub struct Claims {
    pub sub: String,
    pub email: Option<String>,
    pub name: Option<String>,
    pub roles: Option<Vec<String>>,
    pub exp: u64,
}

/// A role granted to a user.
#[derive(Debug, Hash)]
pub enum Role {
    Admin,
    User,
    Custom(String),
}

/// A [`Role`] with its name as a character sequence.
pub enum RoleView {
    Admin,
    User,
    Custom(Seq<char>),
}

impl RoleView {
    /// The name under which the role is written.
    pub open spec fn name(self) -> Seq<char> {
        match self {
            RoleView::Admin => "admin"@,
            RoleView::User => "user"@,
            RoleView::Custom(s) => s,
        }
    }

    /// The role that a name stands for, given the name in lower case and as
    /// it was written.
    pub open spec fn classify(lowered: Seq<char>, written: Seq<char>) -> RoleView {
        if lowered == "admin"@ {
            RoleView::Admin
        } else if lowered == "user"@ {
            RoleView::User
        } else {
            RoleView::Custom(written)
        }
    }
}

impl View for Role {
    type V = RoleView;

    open spec fn view(&self) -> RoleView {
        match self {
            Role::Admin => RoleView::Admin,
            Role::User => RoleView::User,
            Role::Custom(s) => RoleView::Custom(s@),
        }
    }
}

impl Clone for Role {
    fn clone(&self) -> (r: Self)
        ensures
            r == *self,
    {
        match self {
            Role::Admin => Role::Admin,
            Role::User => Role::User,
            Role::Custom(s) => Role::Custom(s.clone()),
        }
    }
}

/// A copy of a list of roles.
pub fn clone_roles(roles: &Vec<Role>) -> (r: Vec<Role>)
    ensures
        r@ == roles@,
{
    let mut out: Vec<Role> = Vec::new();
    let mut i: usize = 0;
    while i < roles.len()
        invariant
            i <= roles.len(),
            out@ == roles@.take(i as int),
        decreases roles.len() - i,
    {
        out.push(roles[i].clone());
        i += 1;
    }
    out
}

impl PartialEq for Role {
    fn eq(&self, other: &Self) -> (r: bool) {
        match (self, other) {
            (Role::Admin, Role::Admin) => true,
            (Role::User, Role::User) => true,
            (Role::Custom(a), Role::Custom(b)) => str_eq(a.as_str(), b.as_str()),
            _ => false,
        }
    }
}

impl Eq for Role {}

impl vstd::std_specs::cmp::PartialEqSpecImpl for Role {
    open spec fn obeys_eq_spec() -> bool {
        true
    }

    open spec fn eq_spec(&self, other: &Self) -> bool {
        self@ == other@
    }
}

impl Role {
    /// The role for a name given in lower case and as it was written:
    /// `admin` and `user` are the built-in roles, any other name is a custom
    /// role that keeps its spelling.
    pub fn classify(lowered: &str, written: &str) -> (r: Role)
        ensures
            r@ == RoleView::classify(lowered@, written@),
    {
        if str_eq(lowered, "admin") {
            Role::Admin
        } else if str_eq(lowered, "user") {
            Role::User
        } else {
            Role::Custom(written.to_owned())
        }
    }

    /// The role that a name stands for; the built-in roles are recognised
    /// whatever the case of their letters.
    pub fn from_string(s: &str) -> (r: Role)
        ensures
            r@ == RoleView::classify(lowercase(s@), s@),
    {
        let lowered = to_lowercase(s);
        Role::classify(lowered.as_str(), s)
    }

    /// The name of the role.
    pub fn as_str(&self) -> (r: &str)
        ensures
            r@ == self@.name(),
    {
        match self {
            Role::Admin => "admin",
            Role::User => "user",
            Role::Custom(s) => s.as_str(),
        }
    }
}

/// Index-free membership of a role in a list of roles.
pub open spec fn holds(roles: Seq<Role>, role: RoleView) -> bool {
    exists|i: int| 0 <= i < roles.len() && (#[trigger] roles[i])@ == role
}

/// Whether no role occurs twice in a list.
pub open spec fn distinct(roles: Seq<Role>) -> bool {
    forall|i: int, j: int| 0 <= i < j < roles.len() ==> (#[trigger] roles[i])@ != (#[trigger] roles[j])@
}

/// Whether `role` is among `roles`.
pub fn contains_role(roles: &Vec<Role>, role: &Role) -> (r: bool)
    ensures
        r == holds(roles@, role@),
{
    let mut i: usize = 0;
    while i < roles.len()
        invariant
            i <= roles.len(),
            forall|k: int| 0 <= k < i ==> (#[trigger] roles@[k])@ != role@,
        decreases roles.len() - i,
    {
        if roles[i] == *role {
            return true;
        }
        i += 1;
    }
    false
}

/// Whether every role of `a` is among `b`.
pub fn roles_within(a: &Vec<Role>, b: &Vec<Role>) -> (r: bool)
    ensures
        r == forall|i: int| 0 <= i < a@.len() ==> holds(b@, (#[trigger] a@[i])@),
{
    let mut i: usize = 0;
    while i < a.len()
        invariant
            i <= a.len(),
            forall|k: int| 0 <= k < i ==> holds(b@, (#[trigger] a@[k])@),
        decreases a.len() - i,
    {
        if !contains_role(b, &a[i]) {
            return false;
        }
        i += 1;
    }
    true
}

/// Whether two lists hold the same roles, whatever their order.
pub open spec fn same_roles(a: Seq<Role>, b: Seq<Role>) -> bool {
    forall|role: RoleView| holds(a, role) <==> holds(b, role)
}

/// Adds `role` to `roles` unless it is there already.
pub fn insert_role(roles: &mut Vec<Role>, role: Role)
    ensures
        forall|x: RoleView| holds(final(roles)@, x) <==> holds(old(roles)@, x) || x == role@,
        distinct(old(roles)@) ==> distinct(final(roles)@),
        holds(old(roles)@, role@) ==> final(roles)@ == old(roles)@,
        !holds(old(roles)@, role@) ==> final(roles)@ == old(roles)@.push(role),
{
    if !contains_role(roles, &role) {
        roles.push(role);
        assert forall|x: RoleView| holds(roles@, x) <==> holds(old(roles)@, x) || x == role@ by {
            if holds(old(roles)@, x) {
                let i = choose|i: int| 0 <= i < old(roles)@.len() && (#[trigger] old(roles)@[i])@ == x;
                assert(roles@[i]@ == x);
            }
            if x == role@ {
                assert(roles@[roles@.len() - 1]@ == x);
            }
        }
    }
}

/// An authenticated user.
///
/// `roles` is a set kept as a list: the order of its elements carries no
/// meaning.
#[derive(Debug, Clone)]
pub struct AuthenticatedUser {
    pub subject: String,
    pub name: String,
    pub roles: Vec<Role>,
}

impl PartialEq for AuthenticatedUser {
    fn eq(&self, other: &Self) -> (r: bool) {
        let same = str_eq(self.subject.as_str(), other.subject.as_str()) && str_eq(
            self.name.as_str(),
            other.name.as_str(),
        ) && roles_within(&self.roles, &other.roles) && roles_within(&other.roles, &self.roles);
        same
    }
}

impl Eq for AuthenticatedUser {}

impl vstd::std_specs::cmp::PartialEqSpecImpl for AuthenticatedUser {
    open spec fn obeys_eq_spec() -> bool {
        true
    }

    open spec fn eq_spec(&self, other: &Self) -> bool {
        same_user(*self, *other)
    }
}

/// Whether two users have the same subject, the same name and the same
/// roles.
pub open spec fn same_user(a: AuthenticatedUser, b: AuthenticatedUser) -> bool {
    &&& a.subject@ == b.subject@
    &&& a.name@ == b.name@
    &&& same_roles(a.roles@, b.roles@)
}

impl AuthenticatedUser {
    /// Whether the list of roles holds no role twice.
    pub open spec fn wf(&self) -> bool {
        distinct(self.roles@)
    }

    /// Whether the user holds `role`.
    pub fn has_role(&self, role: &Role) -> (r: bool)
        ensures
            r == holds(self.roles@, role@),
    {
        contains_role(&self.roles, role)
    }

    /// Whether the user holds at least one of `roles`.
    pub fn has_any_role(&self, roles: &[Role]) -> (r: bool)
        ensures
            r == exists|i: int| 0 <= i < roles@.len() && holds(self.roles@, (#[trigger] roles@[i])@),
    {
        let mut i: usize = 0;
        while i < roles.len()
            invariant
                i <= roles@.len(),
                forall|k: int| 0 <= k < i ==> !holds(self.roles@, (#[trigger] roles@[k])@),
            decreases roles@.len() - i,
        {
            if contains_role(&self.roles, &roles[i]) {
                return true;
            }
            i += 1;
        }
        false
    }

    /// Whether the user holds every one of `roles`.
    pub fn has_all_roles(&self, roles: &[Role]) -> (r: bool)
        ensures
            r == forall|i: int| 0 <= i < roles@.len() ==> holds(self.roles@, (#[trigger] roles@[i])@),
    {
        let mut i: usize = 0;
        while i < roles.len()
            invariant
                i <= roles@.len(),
                forall|k: int| 0 <= k < i ==> holds(self.roles@, (#[trigger] roles@[k])@),
            decreases roles@.len() - i,
        {
            if !contains_role(&self.roles, &roles[i]) {
                return false;
            }
            i += 1;
        }
        true
    }

    /// Whether the user is an administrator.
    pub fn is_admin(&self) -> (r: bool)
        ensures
            r == holds(self.roles@, RoleView::Admin),
    {
        self.has_role(&Role::Admin)
    }
}

/// The outcome of authentication.
#[derive(Debug, Clone)]
pub enum Auth {
    Unauthenticated,
    Authenticated(AuthenticatedUser),
}

impl PartialEq for Auth {
    fn eq(&self, other: &Self) -> (r: bool) {
        match (self, other) {
            (Auth::Unauthenticated, Auth::Unauthenticated) => true,
            (Auth::Authenticated(a), Auth::Authenticated(b)) => a == b,
            _ => false,
        }
    }
}

impl Eq for Auth {}

impl vstd::std_specs::cmp::PartialEqSpecImpl for Auth {
    open spec fn obeys_eq_spec() -> bool {
        true
    }

    open spec fn eq_spec(&self, other: &Self) -> bool {
        match (self, other) {
            (Auth::Unauthenticated, Auth::Unauthenticated) => true,
            (Auth::Authenticated(a), Auth::Authenticated(b)) => same_user(*a, *b),
            _ => false,
        }
    }
}

impl Auth {
    /// Whether a user is signed in.
    pub fn is_authenticated(&self) -> (r: bool)
        ensures
            r == (self is Authenticated),
    {
        match self {
            Auth::Authenticated(_) => true,
            Auth::Unauthenticated => false,
        }
    }

    /// Whether a user is signed in who is neither a plain user nor an
    /// administrator.
    pub fn is_authenticated_guest(&self) -> (r: bool)
        ensures
            r == match self {
                Auth::Authenticated(user) => !holds(user.roles@, RoleView::User) && !holds(
                    user.roles@,
                    RoleView::Admin,
                ),
                Auth::Unauthenticated => false,
            },
    {
        match self {
            Auth::Authenticated(user) => {
                user.roles.len() == 0 || !(user.has_role(&Role::User) || user.has_role(
                    &Role::Admin,
                ))
            },
            Auth::Unauthenticated => false,
        }
    }

    /// Whether an administrator is signed in.
    pub fn is_authenticated_admin(&self) -> (r: bool)
        ensures
            r == match self {
                Auth::Authenticated(user) => holds(user.roles@, RoleView::Admin),
                Auth::Unauthenticated => false,
            },
    {
        match self {
            Auth::Authenticated(user) => user.has_role(&Role::Admin),
            Auth::Unauthenticated => false,
        }
    }
}

} // verus!
