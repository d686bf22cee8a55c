//! Sessions and the life of their tokens.
//!
//! A session is looked up on every request. A lookup never waits: it answers
//! from what the store holds, and where the identity token is close to its
//! expiry it tells the caller to start one refresh in the background. While
//! that refresh is under way the session carries a guard, so that no second
//! refresh is started.
//!
//! Instants and durations are counts of milliseconds; instants are read from
//! a clock that does not go back.

use crate::auth::{clone_roles, distinct, holds, insert_role, Auth, AuthenticatedUser, Role, RoleView};
use crate::json::JsonValue;
use crate::store::Store;
use crate::text::lowercase;
use vstd::prelude::*;
use vstd::string::StringExecFns;

verus! {

/// How long before its expiry an identity token is refreshed: five minutes.
pub const REFRESH_THRESHOLD: u64 = 300_000;

/// What the server keeps for one browser session.
#[derive(Debug)]
pub struct SessionData {
    pub csrf_token: String,
    pub nonce: String,
    pub pkce_verifier: Option<String>,
    pub id_token: Option<String>,
    pub refresh_token: Option<String>,
    pub subject: Option<String>,
    pub name: Option<String>,
    pub roles: Vec<Role>,
    pub id_token_expires_at: Option<u64>,
    pub is_refreshing: bool,
}

/// A [`SessionData`] with its list of roles as a sequence.
pub struct SessionView {
    pub csrf_token: String,
    pub nonce: String,
    pub pkce_verifier: Option<String>,
    pub id_token: Option<String>,
    pub refresh_token: Option<String>,
    pub subject: Option<String>,
    pub name: Option<String>,
    pub roles: Seq<Role>,
    pub id_token_expires_at: Option<u64>,
    pub is_refreshing: bool,
}

impl View for SessionData {
    type V = SessionView;

    open spec fn view(&self) -> SessionView {
        SessionView {
            csrf_token: self.csrf_token,
            nonce: self.nonce,
            pkce_verifier: self.pkce_verifier,
            id_token: self.id_token,
            refresh_token: self.refresh_token,
            subject: self.subject,
            name: self.name,
            roles: self.roles@,
            id_token_expires_at: self.id_token_expires_at,
            is_refreshing: self.is_refreshing,
        }
    }
}

/// A copy of an optional string.
fn clone_opt(s: &Option<String>) -> (r: Option<String>)
    ensures
        r == *s,
{
    match s {
        Some(x) => Some(x.clone()),
        None => None,
    }
}

impl Clone for SessionData {
    fn clone(&self) -> (r: Self)
        ensures
            r@ == self@,
    {
        SessionData {
            csrf_token: self.csrf_token.clone(),
            nonce: self.nonce.clone(),
            pkce_verifier: clone_opt(&self.pkce_verifier),
            id_token: clone_opt(&self.id_token),
            refresh_token: clone_opt(&self.refresh_token),
            subject: clone_opt(&self.subject),
            name: clone_opt(&self.name),
            roles: clone_roles(&self.roles),
            id_token_expires_at: self.id_token_expires_at,
            is_refreshing: self.is_refreshing,
        }
    }
}

/// Whether a token that expires at `expires_at` can no longer be used at
/// `now`. A session without an expiry never expires.
pub open spec fn expired(expires_at: Option<u64>, now: u64) -> bool {
    match expires_at {
        Some(e) => now >= e,
        None => false,
    }
}

/// Whether a token that expires at `expires_at` should be refreshed at
/// `now`: what is left of its life is at most the threshold.
pub open spec fn refresh_due(expires_at: Option<u64>, now: u64) -> bool {
    match expires_at {
        Some(e) => e - now <= REFRESH_THRESHOLD,
        None => false,
    }
}

/// The instant from which a token that expires at `expires_at` is due for a
/// refresh.
pub open spec fn refresh_trigger_at(expires_at: u64) -> int {
    if expires_at >= REFRESH_THRESHOLD {
        expires_at - REFRESH_THRESHOLD
    } else {
        0
    }
}

/// Whether a lookup at `now` starts a refresh: the token is still valid and
/// due for a refresh, there is a refresh token, and no refresh is under way.
pub open spec fn starts_refresh(s: SessionView, now: u64) -> bool {
    &&& !expired(s.id_token_expires_at, now)
    &&& refresh_due(s.id_token_expires_at, now)
    &&& s.refresh_token is Some
    &&& !s.is_refreshing
}

/// The session after a lookup at `now`: the guard is set where the lookup
/// starts a refresh, and nothing else changes.
pub open spec fn after_lookup(s: SessionView, now: u64) -> SessionView {
    if starts_refresh(s, now) {
        SessionView { is_refreshing: true, ..s }
    } else {
        s
    }
}

/// Executable [`expired`].
pub fn is_expired(expires_at: Option<u64>, now: u64) -> (r: bool)
    ensures
        r == expired(expires_at, now),
{
    match expires_at {
        Some(e) => now >= e,
        None => false,
    }
}

/// Executable [`refresh_due`].
pub fn is_refresh_due(expires_at: Option<u64>, now: u64) -> (r: bool)
    ensures
        r == refresh_due(expires_at, now),
{
    match expires_at {
        Some(e) => e <= now || e - now <= REFRESH_THRESHOLD,
        None => false,
    }
}

/// The instant from which a token that expires at `expires_at` is due for a
/// refresh.
pub fn refresh_trigger(expires_at: u64) -> (r: u64)
    ensures
        r == refresh_trigger_at(expires_at),
{
    if expires_at >= REFRESH_THRESHOLD {
        expires_at - REFRESH_THRESHOLD
    } else {
        0
    }
}

/// The two ways of saying when a refresh is due agree: what is left of the
/// token's life is at most the threshold exactly when the trigger instant
/// has been reached.
pub proof fn law_refresh_window(expires_at: u64, now: u64)
    requires
        now < expires_at,
    ensures
        refresh_due(Some(expires_at), now) <==> refresh_trigger_at(expires_at) <= now,
{
}

/// What a lookup answers: the session as it is now, if it can still be used,
/// and the refresh token with which the caller is to start a refresh in the
/// background, if one is to be started.
#[derive(Debug)]
pub struct SessionLookup {
    pub session: Option<SessionData>,
    pub refresh_with: Option<String>,
}

/// Looks up a session at time `now`.
///
/// A session that is not in the store, or whose identity token has expired,
/// gives no session and changes nothing. Any other session is returned as it
/// is, with one exception: where the lookup starts a refresh, the guard is
/// set, in the store and in the answer, and the answer carries the refresh
/// token.
pub fn get_and_refresh_session(store: &mut Store<SessionData>, session_id: &str, now: u64) -> (r:
    SessionLookup)
    requires
        old(store).wf(),
    ensures
        final(store).wf(),
        match old(store)@.get(session_id@) {
            Some(s) => if expired(s.id_token_expires_at, now) {
                &&& r.session is None
                &&& r.refresh_with is None
                &&& final(store)@ == old(store)@
            } else {
                &&& r.session is Some
                &&& r.session->0@ == after_lookup(s@, now)
                &&& r.refresh_with == if starts_refresh(s@, now) {
                    s.refresh_token
                } else {
                    None
                }
                &&& final(store)@.dom() == old(store)@.dom()
                &&& final(store)@[session_id@]@ == after_lookup(s@, now)
                &&& forall|k: Seq<char>|
                    k != session_id@ && old(store)@.contains_key(k) ==> final(store)@[k] == old(
                        store,
                    )@[k]
            },
            None => {
                &&& r.session is None
                &&& r.refresh_with is None
                &&& final(store)@ == old(store)@
            },
        },
{
    let mut data = match store.get(session_id) {
        Some(s) => s.clone(),
        None => { return SessionLookup { session: None, refresh_with: None }; },
    };
    if is_expired(data.id_token_expires_at, now) {
        return SessionLookup { session: None, refresh_with: None };
    }
    if is_refresh_due(data.id_token_expires_at, now) && data.refresh_token.is_some()
        && !data.is_refreshing {
        data.is_refreshing = true;
        let token = clone_opt(&data.refresh_token);
        store.upsert(session_id, data.clone());
        SessionLookup { session: Some(data), refresh_with: token }
    } else {
        SessionLookup { session: Some(data), refresh_with: None }
    }
}

/// What a lookup comes to once the limiter has been asked about the refresh
/// that the lookup would start. `limited` is the limiter's answer, `None`
/// where the limiter could not be asked.
///
/// A refresh that is limited, or about which the limiter could not be
/// asked, is not started: the session is ended and nothing is returned. In
/// every other case the lookup stands as it is.
pub fn after_limit(
    store: &mut Store<SessionData>,
    session_id: &str,
    found: SessionLookup,
    limited: Option<bool>,
) -> (r: SessionLookup)
    requires
        old(store).wf(),
    ensures
        final(store).wf(),
        if found.refresh_with is Some && limited != Some(false) {
            &&& r.session is None
            &&& r.refresh_with is None
            &&& final(store)@ == old(store)@.remove(session_id@)
        } else {
            &&& r == found
            &&& final(store)@ == old(store)@
        },
{
    let stop = match limited {
        Some(b) => b,
        None => true,
    };
    if found.refresh_with.is_some() && stop {
        let _ = store.remove(session_id);
        SessionLookup { session: None, refresh_with: None }
    } else {
        found
    }
}

/// The tokens that a refresh brought.
#[derive(Debug, Clone, PartialEq, Eq)]
pub struct TokenSet {
    pub id_token: String,
    pub refresh_token: Option<String>,
    pub expires_at: u64,
}

/// The session after a refresh has ended. A refresh that brought tokens
/// replaces the identity token, the refresh token and the expiry; one that
/// failed leaves them alone. Either way the guard is cleared.
pub open spec fn after_refresh(s: SessionView, outcome: Option<TokenSet>) -> SessionView {
    match outcome {
        Some(t) => SessionView {
            id_token: Some(t.id_token),
            refresh_token: t.refresh_token,
            id_token_expires_at: Some(t.expires_at),
            is_refreshing: false,
            ..s
        },
        None => SessionView { is_refreshing: false, ..s },
    }
}

/// Records the end of a refresh for a session; `None` stands for a refresh
/// that failed. A session that has left the store meanwhile stays out.
pub fn complete_refresh(store: &mut Store<SessionData>, session_id: &str, outcome: Option<TokenSet>)
    requires
        old(store).wf(),
    ensures
        final(store).wf(),
        final(store)@.dom() == old(store)@.dom(),
        forall|k: Seq<char>|
            k != session_id@ && old(store)@.contains_key(k) ==> final(store)@[k] == old(store)@[k],
        old(store)@.contains_key(session_id@) ==> final(store)@[session_id@]@ == after_refresh(
            old(store)@[session_id@]@,
            outcome,
        ),
{
    let mut data = match store.get(session_id) {
        Some(s) => s.clone(),
        None => { return ; },
    };
    match outcome {
        Some(t) => {
            data.id_token = Some(t.id_token);
            data.refresh_token = t.refresh_token;
            data.id_token_expires_at = Some(t.expires_at);
        },
        None => {},
    }
    data.is_refreshing = false;
    store.upsert(session_id, data);
}

/// Number of refreshes that lookups at the given times start, one lookup
/// after another, with no refresh ending in between.
pub open spec fn refreshes_started(s: SessionView, times: Seq<u64>) -> nat
    decreases times.len(),
{
    if times.len() == 0 {
        0
    } else {
        let first: nat = if starts_refresh(s, times[0]) {
            1
        } else {
            0
        };
        first + refreshes_started(after_lookup(s, times[0]), times.drop_first())
    }
}

proof fn lemma_guard_holds(s: SessionView, times: Seq<u64>)
    requires
        s.is_refreshing,
    ensures
        refreshes_started(s, times) == 0,
    decreases times.len(),
{
    if times.len() > 0 {
        lemma_guard_holds(after_lookup(s, times[0]), times.drop_first());
    }
}

/// However many lookups are made while no refresh ends, at most one of them
/// starts a refresh; none does while the guard is set.
pub proof fn law_single_flight(s: SessionView, times: Seq<u64>)
    ensures
        refreshes_started(s, times) <= 1,
        s.is_refreshing ==> refreshes_started(s, times) == 0,
    decreases times.len(),
{
    if s.is_refreshing {
        lemma_guard_holds(s, times);
    } else if times.len() > 0 {
        if starts_refresh(s, times[0]) {
            lemma_guard_holds(after_lookup(s, times[0]), times.drop_first());
        } else {
            law_single_flight(after_lookup(s, times[0]), times.drop_first());
        }
    }
}

/// The instant at which a token expires whose expiry claim is
/// `exp_unix_secs`, in seconds since the epoch: the wall clock says
/// `now_unix_ms`, the monotonic clock `now`, and what is left of the token's
/// life on the first is added to the second. A token whose expiry has passed
/// expires at once. The result stops at the largest instant.
pub open spec fn expiry_instant_at(now: u64, now_unix_ms: u64, exp_unix_secs: i64) -> int {
    let left = if exp_unix_secs * 1000 > now_unix_ms {
        exp_unix_secs * 1000 - now_unix_ms
    } else {
        0
    };
    if now + left > u64::MAX {
        u64::MAX as int
    } else {
        now + left
    }
}

/// Executable [`expiry_instant_at`].
pub fn expiry_instant(now: u64, now_unix_ms: u64, exp_unix_secs: i64) -> (r: u64)
    ensures
        r == expiry_instant_at(now, now_unix_ms, exp_unix_secs),
{
    let exp_ms: i128 = (exp_unix_secs as i128) * 1000;
    let left: i128 = if exp_ms > now_unix_ms as i128 {
        exp_ms - now_unix_ms as i128
    } else {
        0
    };
    let sum: i128 = now as i128 + left;
    if sum > u64::MAX as i128 {
        u64::MAX
    } else {
        sum as u64
    }
}

impl Auth {
    /// Who a session stands for: the user, where the session has a name and
    /// a subject; nobody otherwise.
    pub fn from_session(data: &SessionData) -> (r: Auth)
        ensures
            match (data.name, data.subject) {
                (Some(name), Some(subject)) => r matches Auth::Authenticated(u) && u.name == name
                    && u.subject == subject && u.roles@ == data.roles@,
                _ => r is Unauthenticated,
            },
    {
        match (&data.name, &data.subject) {
            (Some(name), Some(subject)) => Auth::Authenticated(
                AuthenticatedUser {
                    subject: subject.clone(),
                    name: name.clone(),
                    roles: clone_roles(&data.roles),
                },
            ),
            _ => Auth::Unauthenticated,
        }
    }
}

/// The role that a name in a claim stands for.
pub open spec fn role_of_name(name: Seq<char>) -> RoleView {
    RoleView::classify(lowercase(name), name)
}

/// Whether a claim value names `role`: the value is a string that stands for
/// the role, or an array with such a string among its elements.
pub open spec fn value_grants(v: JsonValue, role: RoleView) -> bool {
    match v {
        JsonValue::String(s) => role_of_name(s@) == role,
        JsonValue::Array(a) => exists|i: int|
            0 <= i < a@.len() && (#[trigger] a@[i]).text() is Some && role_of_name(
                a@[i].text()->0,
            ) == role,
        _ => false,
    }
}

/// Whether the claim `claim` of `claims` names `role`.
pub open spec fn claim_grants(claims: JsonValue, claim: Seq<char>, role: RoleView) -> bool {
    match claims.member(claim) {
        Some(v) => value_grants(v, role),
        None => false,
    }
}

/// Whether the claims name `role` under one of the claim names in use for
/// roles and groups. A name with a dot in it is the name of one claim, not a
/// path.
pub open spec fn granted(claims: JsonValue, role: RoleView) -> bool {
    ||| claim_grants(claims, "roles"@, role)
    ||| claim_grants(claims, "role"@, role)
    ||| claim_grants(claims, "groups"@, role)
    ||| claim_grants(claims, "group"@, role)
    ||| claim_grants(claims, "realm_access.roles"@, role)
    ||| claim_grants(claims, "resource_access.roles"@, role)
}

/// Adds the roles that a claim value names.
fn add_roles_of_value(roles: &mut Vec<Role>, v: &JsonValue)
    requires
        distinct(old(roles)@),
    ensures
        distinct(final(roles)@),
        forall|x: RoleView| holds(final(roles)@, x) <==> holds(old(roles)@, x) || value_grants(*v, x),
{
    match v {
        JsonValue::String(s) => {
            insert_role(roles, Role::from_string(s.as_str()));
        },
        JsonValue::Array(items) => {
            let mut i: usize = 0;
            while i < items.len()
                invariant
                    i <= items.len(),
                    distinct(roles@),
                    forall|x: RoleView|
                        holds(roles@, x) <==> holds(old(roles)@, x) || exists|k: int|
                            0 <= k < i && (#[trigger] items@[k]).text() is Some && role_of_name(
                                items@[k].text()->0,
                            ) == x,
                decreases items.len() - i,
            {
                if let Some(name) = items[i].as_str() {
                    insert_role(roles, Role::from_string(name));
                }
                i += 1;
            }
        },
        _ => {},
    }
}

/// Adds the roles that the claim `claim` names.
fn add_roles_of_claim(roles: &mut Vec<Role>, claims: &JsonValue, claim: &str)
    requires
        distinct(old(roles)@),
    ensures
        distinct(final(roles)@),
        forall|x: RoleView|
            holds(final(roles)@, x) <==> holds(old(roles)@, x) || claim_grants(*claims, claim@, x),
{
    if let Some(v) = claims.get(claim) {
        add_roles_of_value(roles, v);
        assert forall|x: RoleView|
            holds(roles@, x) <==> holds(old(roles)@, x) || claim_grants(*claims, claim@, x) by {
            assert(claim_grants(*claims, claim@, x) == value_grants(*v, x));
        }
    }
}

/// The roles that the claims of a token name, each of them once.
pub fn extract_roles_from_claims(claims: &JsonValue) -> (roles: Vec<Role>)
    ensures
        distinct(roles@),
        forall|x: RoleView| holds(roles@, x) <==> granted(*claims, x),
{
    let mut roles: Vec<Role> = Vec::new();
    add_roles_of_claim(&mut roles, claims, "roles");
    add_roles_of_claim(&mut roles, claims, "role");
    add_roles_of_claim(&mut roles, claims, "groups");
    add_roles_of_claim(&mut roles, claims, "group");
    add_roles_of_claim(&mut roles, claims, "realm_access.roles");
    add_roles_of_claim(&mut roles, claims, "resource_access.roles");
    roles
}

/// The first name in the claims: the claim `given_name` where the claims
/// have one, the claim `first_name` otherwise; in either case only a
/// string counts.
pub open spec fn first_name(claims: JsonValue) -> Option<Seq<char>> {
    match claims.member("given_name"@) {
        Some(v) => v.text(),
        None => claims.text_member("first_name"@),
    }
}

/// The last name in the claims: `family_name`, or else `last_name`.
pub open spec fn last_name(claims: JsonValue) -> Option<Seq<char>> {
    match claims.member("family_name"@) {
        Some(v) => v.text(),
        None => claims.text_member("last_name"@),
    }
}

/// The name to show for a user: first and last name with a space between
/// them, or the one of them that the claims have, or else the e-mail
/// address, or else `User`.
pub open spec fn display_name(claims: JsonValue) -> Seq<char> {
    match (first_name(claims), last_name(claims)) {
        (Some(first), Some(last)) => first + " "@ + last,
        (Some(first), None) => first,
        (None, Some(last)) => last,
        (None, None) => match claims.text_member("email"@) {
            Some(email) => email,
            None => "User"@,
        },
    }
}

/// The string member `key`, or where the object has no member `key` at all
/// the string member `fallback`.
fn text_of_either<'a>(claims: &'a JsonValue, key: &str, fallback: &str) -> (r: Option<&'a str>)
    ensures
        match r {
            Some(t) => Some(t@),
            None => None,
        } == match claims.member(key@) {
            Some(v) => v.text(),
            None => claims.text_member(fallback@),
        },
{
    match claims.get(key) {
        Some(v) => v.as_str(),
        None => match claims.get(fallback) {
            Some(v) => v.as_str(),
            None => None,
        },
    }
}

/// The name to show for the user that the claims describe.
pub fn extract_name_from_claims(claims: &JsonValue) -> (name: String)
    ensures
        name@ == display_name(*claims),
{
    let first = text_of_either(claims, "given_name", "first_name");
    let last = text_of_either(claims, "family_name", "last_name");
    match (first, last) {
        (Some(f), Some(l)) => {
            let mut name = f.to_owned();
            name.append(" ");
            name.append(l);
            name
        },
        (Some(f), None) => f.to_owned(),
        (None, Some(l)) => l.to_owned(),
        (None, None) => {
            let email = match claims.get("email") {
                Some(v) => v.as_str(),
                None => None,
            };
            match email {
                Some(e) => e.to_owned(),
                None => "User".to_owned(),
            }
        },
    }
}

/// The user that a session and the claims of its identity token describe:
/// the subject as given, the roles of the session, and the name from the
/// claims, or the subject in its place where the claims are not at hand.
pub fn extract_auth_user(session: &SessionData, subject: &str, claims: Option<&JsonValue>) -> (r:
    AuthenticatedUser)
    ensures
        r.subject@ == subject@,
        r.roles@ == session.roles@,
        r.name@ == match claims {
            Some(c) => display_name(*c),
            None => subject@,
        },
{
    let name = match claims {
        Some(c) => extract_name_from_claims(c),
        None => subject.to_owned(),
    };
    AuthenticatedUser { subject: subject.to_owned(), name, roles: clone_roles(&session.roles) }
}

} // verus!
