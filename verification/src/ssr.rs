//! The decisions of the sign-in, callback and sign-out handlers, and of the
//! routes that ask for a role.
//!
//! The handlers themselves talk to the browser and to the identity provider;
//! what they decide on the values that come back is decided here.

use crate::auth::{clone_roles, distinct, holds, Auth, AuthenticatedUser, Role, RoleView};
use crate::auth_ssr::{
    after_lookup, display_name, expired, extract_name_from_claims, extract_roles_from_claims,
    get_and_refresh_session, granted, starts_refresh, SessionData, SessionView,
};
use crate::json::{json_bytes_document, parse_json_bytes, JsonValue};
use crate::store::Store;
use crate::text::{
    chars_of, drop_trailing, index_of, index_of_exec, lemma_index_of, slice_of, str_eq, string_of,
    without_trailing,
};
use vstd::prelude::*;
use vstd::string::StringExecFns;

verus! {

/// The error of `base64` for text that cannot be decoded; nothing is read
/// from it.
#[verifier::external_type_specification]
#[verifier::external_body]
pub struct ExBase64DecodeError(base64::DecodeError);

/// The bytes that the URL-safe alphabet without padding decodes `text` to,
/// as `base64` does it; `None` where it reports an error.
pub uninterp spec fn base64url_decoded(text: Seq<char>) -> Option<Seq<u8>>;

/// Trusted: calls `Engine::decode` on `URL_SAFE_NO_PAD`. The outcome depends
/// on the text alone; it is named, not described.
#[verifier::external_body]
fn base64url_decode(text: &str) -> (r: Result<Vec<u8>, base64::DecodeError>)
    ensures
        match r {
            Ok(bytes) => base64url_decoded(text@) == Some(bytes@),
            Err(_) => base64url_decoded(text@) is None,
        },
{
    base64::Engine::decode(&base64::engine::general_purpose::URL_SAFE_NO_PAD, text)
}

/// The query of the callback from the identity provider.
#[derive(Debug, Clone, PartialEq, Eq)]
pub struct CallbackQuery {
    pub code: String,
    pub state: String,
}

/// The roles that a route found on the user who called it.
#[derive(Debug)]
pub struct RequireRole(pub Vec<Role>);

impl RequireRole {
    /// The roles of a user.
    pub fn of_user(user: &AuthenticatedUser) -> (r: RequireRole)
        ensures
            r.0@ == user.roles@,
    {
        RequireRole(clone_roles(&user.roles))
    }
}

/// What a route answers: an HTTP status and a body.
#[derive(Debug, Clone, PartialEq, Eq)]
pub struct Reply {
    pub status: u16,
    pub body: String,
}

/// The middle part of a token of three parts divided by dots; `None` for a
/// text with fewer or more than two dots.
pub open spec fn token_payload(token: Seq<char>) -> Option<Seq<char>> {
    match index_of(token, '.', 0) {
        Some(a) => match index_of(token, '.', a + 1) {
            Some(b) => if index_of(token, '.', b + 1) is None {
                Some(token.subrange(a + 1, b))
            } else {
                None
            },
            None => None,
        },
        None => None,
    }
}

/// The claims that an access token carries, where it is a signed token of
/// three parts whose middle part decodes to a JSON document.
pub open spec fn access_token_claims(token: Seq<char>) -> Option<JsonValue> {
    match token_payload(token) {
        Some(payload) => match base64url_decoded(payload) {
            Some(bytes) => json_bytes_document(bytes),
            None => None,
        },
        None => None,
    }
}

/// Executable [`token_payload`].
pub fn payload_of_token(token: &str) -> (r: Option<String>)
    ensures
        match r {
            Some(p) => token_payload(token@) == Some(p@),
            None => token_payload(token@) is None,
        },
{
    let v = chars_of(token);
    let a = match index_of_exec(&v, '.', 0) {
        Some(a) => a,
        None => { return None; },
    };
    proof {
        lemma_index_of(v@, '.', 0);
    }
    let b = match index_of_exec(&v, '.', a + 1) {
        Some(b) => b,
        None => { return None; },
    };
    proof {
        lemma_index_of(v@, '.', a + 1);
    }
    match index_of_exec(&v, '.', b + 1) {
        Some(_) => None,
        None => Some(string_of(&slice_of(&v, a + 1, b))),
    }
}

/// Reads the claims out of an access token, if it carries any.
pub fn extract_claims_from_access_token(token: &str) -> (r: Option<JsonValue>)
    ensures
        r == access_token_claims(token@),
{
    let payload = match payload_of_token(token) {
        Some(p) => p,
        None => { return None; },
    };
    match base64url_decode(payload.as_str()) {
        Ok(bytes) => parse_json_bytes(bytes.as_slice()),
        Err(_) => None,
    }
}

/// The route for administrators: anyone else is turned away with status 403.
pub fn admin_only_handler(user: &AuthenticatedUser) -> (r: Reply)
    ensures
        if holds(user.roles@, RoleView::Admin) {
            r.status == 200 && r.body@ == "Welcome, admin "@ + user.name@ + "!"@
        } else {
            r.status == 403 && r.body@ == "Admin access required"@
        },
{
    if !user.is_admin() {
        return Reply { status: 403, body: "Admin access required".to_owned() };
    }
    let mut body = "Welcome, admin ".to_owned();
    body.append(user.name.as_str());
    body.append("!");
    Reply { status: 200, body }
}

/// The chat route: open to plain users and to administrators, anyone else
/// is turned away with status 403.
pub fn chat_handler(user: &AuthenticatedUser) -> (r: Reply)
    ensures
        if holds(user.roles@, RoleView::User) || holds(user.roles@, RoleView::Admin) {
            r.status == 200 && r.body@ == user.name@ + " can chat!"@
        } else {
            r.status == 403 && r.body@ == "Chat permission required"@
        },
{
    if !(user.has_role(&Role::User) || user.has_role(&Role::Admin)) {
        return Reply { status: 403, body: "Chat permission required".to_owned() };
    }
    let mut body = user.name.clone();
    body.append(" can chat!");
    Reply { status: 200, body }
}

/// The session of a request together with its identity token. There is
/// none without a session identifier, without a session for it, and for a
/// session that has no identity token.
pub fn session_of_request(store: &Store<SessionData>, session_id: Option<&str>) -> (r: Option<
    (SessionData, String),
>)
    requires
        store.wf(),
    ensures
        match r {
            Some((s, token)) => session_id is Some && store@.contains_key(session_id->0@) && s@
                == store@[session_id->0@]@ && s.id_token == Some(token),
            None => session_id is None || !store@.contains_key(session_id->0@)
                || store@[session_id->0@].id_token is None,
        },
{
    let id = match session_id {
        Some(id) => id,
        None => { return None; },
    };
    let session = match store.get(id) {
        Some(s) => s.clone(),
        None => { return None; },
    };
    match &session.id_token {
        Some(token) => {
            let token = token.clone();
            Some((session, token))
        },
        None => None,
    }
}

/// Who is calling, and the refresh to start in the background, if any.
#[derive(Debug)]
pub struct AuthState {
    pub auth: Auth,
    pub refresh_with: Option<String>,
}

/// Finds out who is calling from the session identifier in the request's
/// cookie. Nobody is signed in without a cookie, without a session for it,
/// and with a session whose token has expired.
pub fn get_auth_state(store: &mut Store<SessionData>, session_id: Option<&str>, now: u64) -> (r:
    AuthState)
    requires
        old(store).wf(),
    ensures
        final(store).wf(),
        match session_id {
            Some(id) => match old(store)@.get(id@) {
                Some(s) => if expired(s.id_token_expires_at, now) {
                    r.auth is Unauthenticated && r.refresh_with is None && final(store)@ == old(
                        store,
                    )@
                } else {
                    &&& r.refresh_with == if starts_refresh(s@, now) {
                        s.refresh_token
                    } else {
                        None
                    }
                    &&& match (s.name, s.subject) {
                        (Some(name), Some(subject)) => r.auth matches Auth::Authenticated(u)
                            && u.name == name && u.subject == subject && u.roles@ == s.roles@,
                        _ => r.auth is Unauthenticated,
                    }
                    &&& final(store)@.dom() == old(store)@.dom()
                    &&& final(store)@[id@]@ == after_lookup(s@, now)
                    &&& forall|k: Seq<char>|
                        k != id@ && old(store)@.contains_key(k) ==> final(store)@[k] == old(
                            store,
                        )@[k]
                },
                None => r.auth is Unauthenticated && r.refresh_with is None && final(store)@
                    == old(store)@,
            },
            None => r.auth is Unauthenticated && r.refresh_with is None && final(store)@ == old(store)@,
        },
{
    match session_id {
        Some(id) => {
            let found = get_and_refresh_session(store, id, now);
            match found.session {
                Some(data) => AuthState {
                    auth: Auth::from_session(&data),
                    refresh_with: found.refresh_with,
                },
                None => AuthState { auth: Auth::Unauthenticated, refresh_with: None },
            }
        },
        None => AuthState { auth: Auth::Unauthenticated, refresh_with: None },
    }
}

/// The session that a sign-in starts: it holds what the callback will check
/// and no tokens yet.
pub fn new_session(csrf_token: String, nonce: String, pkce_verifier: String) -> (r: SessionData)
    ensures
        r.csrf_token == csrf_token,
        r.nonce == nonce,
        r.pkce_verifier == Some(pkce_verifier),
        r.id_token is None,
        r.refresh_token is None,
        r.subject is None,
        r.name is None,
        r.roles@.len() == 0,
        r.id_token_expires_at is None,
        !r.is_refreshing,
{
    SessionData {
        csrf_token,
        nonce,
        pkce_verifier: Some(pkce_verifier),
        id_token: None,
        refresh_token: None,
        subject: None,
        name: None,
        roles: Vec::new(),
        id_token_expires_at: None,
        is_refreshing: false,
    }
}

/// Why a callback is turned away, each with status 400.
#[derive(Clone, Copy, Debug, PartialEq, Eq, Structural)]
pub enum CallbackError {
    MissingSessionCookie,
    InvalidSession,
    CsrfValidationFailed,
    MissingPkceVerifier,
}

impl CallbackError {
    /// The body of the answer.
    pub fn message(&self) -> (r: &'static str)
        ensures
            r@ == match self {
                CallbackError::MissingSessionCookie => "Missing session cookie"@,
                CallbackError::InvalidSession => "Invalid session"@,
                CallbackError::CsrfValidationFailed => "CSRF validation failed"@,
                CallbackError::MissingPkceVerifier => "Missing PKCE verifier"@,
            },
    {
        match self {
            CallbackError::MissingSessionCookie => "Missing session cookie",
            CallbackError::InvalidSession => "Invalid session",
            CallbackError::CsrfValidationFailed => "CSRF validation failed",
            CallbackError::MissingPkceVerifier => "Missing PKCE verifier",
        }
    }
}

/// Checks a callback against the session that started the sign-in and hands
/// out the PKCE verifier for the exchange of the code.
///
/// The verifier leaves the session as soon as the session is found, whether
/// or not the check of the state then passes: a callback can be tried once.
pub fn begin_callback(store: &mut Store<SessionData>, session_id: Option<&str>, state: &str) -> (r:
    Result<String, CallbackError>)
    requires
        old(store).wf(),
    ensures
        final(store).wf(),
        match session_id {
            None => r == Err::<String, CallbackError>(CallbackError::MissingSessionCookie)
                && final(store)@ == old(store)@,
            Some(id) => match old(store)@.get(id@) {
                None => r == Err::<String, CallbackError>(CallbackError::InvalidSession) && final(store)@ == old(store)@,
                Some(s) => {
                    &&& final(store)@.dom() == old(store)@.dom()
                    &&& final(store)@[id@]@ == (SessionView {
                        pkce_verifier: None,
                        ..s@
                    })
                    &&& forall|k: Seq<char>|
                        k != id@ && old(store)@.contains_key(k) ==> final(store)@[k] == old(store)@[k]
                    &&& if s.csrf_token@ != state@ {
                        r == Err::<String, CallbackError>(CallbackError::CsrfValidationFailed)
                    } else {
                        match s.pkce_verifier {
                            Some(verifier) => r == Ok::<String, CallbackError>(verifier),
                            None => r == Err::<String, CallbackError>(
                                CallbackError::MissingPkceVerifier,
                            ),
                        }
                    }
                },
            },
        },
{
    let id = match session_id {
        Some(id) => id,
        None => { return Err(CallbackError::MissingSessionCookie); },
    };
    let mut data = match store.get(id) {
        Some(s) => s.clone(),
        None => { return Err(CallbackError::InvalidSession); },
    };
    let verifier = data.pkce_verifier;
    data.pkce_verifier = None;
    let state_matches = str_eq(data.csrf_token.as_str(), state);
    store.upsert(id, data);
    if !state_matches {
        return Err(CallbackError::CsrfValidationFailed);
    }
    match verifier {
        Some(v) => Ok(v),
        None => Err(CallbackError::MissingPkceVerifier),
    }
}

/// An identity token that was verified, with what was read from it.
#[derive(Debug)]
pub struct VerifiedIdToken {
    pub raw: String,
    pub subject: String,
    pub expires_at: u64,
    pub claims: Option<JsonValue>,
}

/// What the exchange of the code brought.
#[derive(Debug)]
pub struct LoginTokens {
    pub id_token: Option<VerifiedIdToken>,
    pub access_token_claims: Option<JsonValue>,
    pub refresh_token: Option<String>,
}

/// Whether the claims of the identity token name at least one role.
pub open spec fn id_token_names_roles(tokens: LoginTokens) -> bool {
    match tokens.id_token {
        Some(t) => match t.claims {
            Some(c) => exists|x: RoleView| granted(c, x),
            None => false,
        },
        None => false,
    }
}

/// Whether `after` is the session `before` filled with what a sign-in
/// brought.
///
/// A verified identity token gives the subject, the expiry and the token
/// itself, and its claims, where they are at hand, the name and the roles.
/// Where these claims name no role, the roles are those that the claims of
/// the access token name, if it has claims. The refresh token is the new one,
/// or none.
pub open spec fn logged_in(before: SessionData, after: SessionData, tokens: LoginTokens) -> bool {
    &&& distinct(before.roles@) ==> distinct(after.roles@)
    &&& after.csrf_token == before.csrf_token
    &&& after.nonce == before.nonce
    &&& after.pkce_verifier == before.pkce_verifier
    &&& after.is_refreshing == before.is_refreshing
    &&& after.refresh_token == tokens.refresh_token
    &&& match tokens.id_token {
        Some(t) => {
            &&& after.subject == Some(t.subject)
            &&& after.id_token == Some(t.raw)
            &&& after.id_token_expires_at == Some(t.expires_at)
            &&& match t.claims {
                Some(c) => after.name is Some && after.name->0@
                    == display_name(c),
                None => after.name == before.name,
            }
        },
        None => {
            &&& after.subject == before.subject
            &&& after.id_token == before.id_token
            &&& after.id_token_expires_at == before.id_token_expires_at
            &&& after.name == before.name
        },
    }
    &&& if id_token_names_roles(tokens) {
        forall|x: RoleView|
            holds(after.roles@, x) <==> granted(tokens.id_token->0.claims->0, x)
    } else {
        match tokens.access_token_claims {
            Some(c) => forall|x: RoleView| holds(after.roles@, x) <==> granted(c, x),
            None => if tokens.id_token is Some && tokens.id_token->0.claims is Some {
                after.roles@.len() == 0
            } else {
                after.roles@ == before.roles@
            },
        }
    }
}

/// Fills a session with what a sign-in brought, as [`logged_in`] says.
pub fn complete_login(session: &mut SessionData, tokens: LoginTokens)
    ensures
        logged_in(*old(session), *final(session), tokens),
{
    let mut roles_extracted = false;
    if let Some(t) = tokens.id_token {
        session.subject = Some(t.subject);
        session.id_token_expires_at = Some(t.expires_at);
        if let Some(c) = &t.claims {
            session.roles = extract_roles_from_claims(c);
            session.name = Some(extract_name_from_claims(c));
            roles_extracted = session.roles.len() > 0;
            proof {
                if roles_extracted {
                    assert(granted(*c, session.roles@[0]@));
                }
            }
        }
        session.id_token = Some(t.raw);
    }
    if !roles_extracted {
        if let Some(c) = &tokens.access_token_claims {
            session.roles = extract_roles_from_claims(c);
        }
    }
    session.refresh_token = tokens.refresh_token;
}

/// Fills the session of a callback with what the sign-in brought. A session
/// that has left the store meanwhile turns the callback away.
pub fn finish_callback(store: &mut Store<SessionData>, session_id: &str, tokens: LoginTokens) -> (r:
    Result<(), CallbackError>)
    requires
        old(store).wf(),
    ensures
        final(store).wf(),
        match old(store)@.get(session_id@) {
            None => r == Err::<(), CallbackError>(CallbackError::InvalidSession) && final(store)@
                == old(store)@,
            Some(s) => {
                &&& r is Ok
                &&& final(store)@.dom() == old(store)@.dom()
                &&& forall|k: Seq<char>|
                    k != session_id@ && old(store)@.contains_key(k) ==> final(store)@[k] == old(
                        store,
                    )@[k]
                &&& logged_in(s, final(store)@[session_id@], tokens)
            },
        },
{
    let mut data = match store.get(session_id) {
        Some(s) => s.clone(),
        None => { return Err(CallbackError::InvalidSession); },
    };
    complete_login(&mut data, tokens);
    store.upsert(session_id, data);
    Ok(())
}

/// What a sign-out found: the identity token of the session that it ended,
/// if the session had one.
pub fn logout(store: &mut Store<SessionData>, session_id: Option<&str>) -> (r: Option<String>)
    requires
        old(store).wf(),
    ensures
        final(store).wf(),
        match session_id {
            Some(id) => final(store)@ == old(store)@.remove(id@) && r == match old(store)@.get(
                id@,
            ) {
                Some(s) => s.id_token,
                None => None,
            },
            None => final(store)@ == old(store)@ && r is None,
        },
{
    match session_id {
        Some(id) => match store.remove(id) {
            Some(s) => s.id_token,
            None => None,
        },
        None => None,
    }
}

/// What an exchange of the refresh token brought while a request waited
/// for it: the new identity token, if there is one, the new refresh token,
/// if there is one, and the subject and the claims of the identity token,
/// where it was found valid.
#[derive(Debug)]
pub struct RefreshedTokens {
    pub id_token: Option<String>,
    pub refresh_token: Option<String>,
    pub identity: Option<Identity>,
}

/// The subject and the claims of an identity token that was found valid.
#[derive(Debug)]
pub struct Identity {
    pub subject: String,
    pub claims: JsonValue,
}

/// The session once the tokens of an exchange are written to it.
///
/// The identity token is the new one, also where there is none. The refresh
/// token is the new one where there is one and stays otherwise. The subject
/// is the one of a valid identity token. Nothing is said here of name and
/// roles, which come from the claims.
pub open spec fn with_refreshed(s: SessionView, tokens: RefreshedTokens) -> SessionView {
    SessionView {
        id_token: tokens.id_token,
        refresh_token: match tokens.refresh_token {
            Some(t) => Some(t),
            None => s.refresh_token,
        },
        subject: match tokens.identity {
            Some(i) => Some(i.subject),
            None => s.subject,
        },
        ..s
    }
}

/// Writes the tokens of an exchange to the session of a request and says
/// who the user is.
///
/// Without a session nothing happens and nobody is signed in. With one, the
/// tokens are written whether or not the identity token was found valid;
/// the expiry stays as it is. A valid identity token gives the session its
/// subject, and its claims the name and the roles; the user with these is
/// returned. Without a valid identity token nobody is signed in, and
/// subject, name and roles stay.
pub fn refresh_in_request(
    store: &mut Store<SessionData>,
    session_id: &str,
    tokens: RefreshedTokens,
) -> (r: Option<AuthenticatedUser>)
    requires
        old(store).wf(),
    ensures
        final(store).wf(),
        match old(store)@.get(session_id@) {
            None => r is None && final(store)@ == old(store)@,
            Some(s) => {
                let after = final(store)@[session_id@];
                &&& final(store)@.dom() == old(store)@.dom()
                &&& forall|k: Seq<char>|
                    k != session_id@ && old(store)@.contains_key(k) ==> final(store)@[k] == old(
                        store,
                    )@[k]
                &&& match tokens.identity {
                    Some(identity) => {
                        &&& after@ == (SessionView {
                            name: after.name,
                            roles: after.roles@,
                            ..with_refreshed(s@, tokens)
                        })
                        &&& after.name is Some
                        &&& after.name->0@ == display_name(identity.claims)
                        &&& distinct(after.roles@)
                        &&& forall|x: RoleView|
                            holds(after.roles@, x) <==> granted(identity.claims, x)
                        &&& r is Some
                        &&& r->0.subject == identity.subject
                        &&& r->0.name@ == display_name(identity.claims)
                        &&& r->0.roles@ == after.roles@
                    },
                    None => after@ == with_refreshed(s@, tokens) && r is None,
                }
            },
        },
{
    let mut data = match store.get(session_id) {
        Some(s) => s.clone(),
        None => { return None; },
    };
    data.id_token = tokens.id_token;
    if let Some(t) = tokens.refresh_token {
        data.refresh_token = Some(t);
    }
    let user = match tokens.identity {
        Some(identity) => {
            let roles = extract_roles_from_claims(&identity.claims);
            let name = extract_name_from_claims(&identity.claims);
            data.roles = clone_roles(&roles);
            data.subject = Some(identity.subject.clone());
            data.name = Some(name.clone());
            Some(AuthenticatedUser { subject: identity.subject, name, roles })
        },
        None => None,
    };
    store.upsert(session_id, data);
    user
}

/// The error of `url` for text that is no address; nothing is read from it.
#[verifier::external_type_specification]
#[verifier::external_body]
pub struct ExUrlParseError(url::ParseError);

/// The address that `url` writes once two pairs of key and value are added
/// to the query of the address `base`; `None` where it does not read `base`
/// as an address.
pub uninterp spec fn url_with_pairs(
    base: Seq<char>,
    first_key: Seq<char>,
    first_value: Seq<char>,
    second_key: Seq<char>,
    second_value: Seq<char>,
) -> Option<Seq<char>>;

/// Whether the address written from the five texts is sure to stay under
/// the four gigabytes that `url` can hold: a character takes at most four
/// bytes, each of which may be written as three, and at most eight
/// characters are added between the texts.
pub open spec fn address_fits(
    base: Seq<char>,
    first_key: Seq<char>,
    first_value: Seq<char>,
    second_key: Seq<char>,
    second_value: Seq<char>,
) -> bool {
    12 * (base.len() + first_key.len() + first_value.len() + second_key.len()
        + second_value.len()) + 8 <= u32::MAX
}

/// Trusted: calls `Url::parse`, `Url::query_pairs_mut` with two calls of
/// `append_pair`, and `Url::to_string`. The outcome depends on the five
/// texts alone; it is named, not described. `url` keeps positions in 32
/// bits and does not test the length when pairs are added, so the texts
/// have to be short enough for the address to fit.
#[verifier::external_body]
fn url_append_pairs(
    base: &str,
    first_key: &str,
    first_value: &str,
    second_key: &str,
    second_value: &str,
) -> (r: Result<String, url::ParseError>)
    requires
        address_fits(base@, first_key@, first_value@, second_key@, second_value@),
    ensures
        match r {
            Ok(address) => url_with_pairs(
                base@,
                first_key@,
                first_value@,
                second_key@,
                second_value@,
            ) == Some(address@),
            Err(_) => url_with_pairs(base@, first_key@, first_value@, second_key@, second_value@)
                is None,
        },
{
    let mut url = url::Url::parse(base)?;
    url.query_pairs_mut().append_pair(first_key, first_value).append_pair(second_key, second_value);
    Ok(url.to_string())
}

/// The address of the identity provider's sign-out below its issuer
/// address.
pub open spec fn logout_endpoint_of(issuer_url: Seq<char>) -> Seq<char> {
    drop_trailing(issuer_url, '/') + "/oidc/logout"@
}

/// The address to send the browser to on sign-out: the provider's sign-out
/// with the identity token as a hint and the address to come back to.
/// `None` where the issuer address gives no address, and where the texts are
/// too long for an address.
pub fn logout_url(issuer_url: &str, id_token: &str, post_logout_redirect_uri: &str) -> (r: Option<
    String,
>)
    ensures
        if address_fits(
            logout_endpoint_of(issuer_url@),
            "id_token_hint"@,
            id_token@,
            "post_logout_redirect_uri"@,
            post_logout_redirect_uri@,
        ) {
            (match r {
                Some(address) => Some(address@),
                None => None,
            }) == url_with_pairs(
                logout_endpoint_of(issuer_url@),
                "id_token_hint"@,
                id_token@,
                "post_logout_redirect_uri"@,
                post_logout_redirect_uri@,
            )
        } else {
            r is None
        },
{
    let mut base = without_trailing(issuer_url, '/');
    base.append("/oidc/logout");
    let characters: u128 = base.as_str().unicode_len() as u128 + "id_token_hint".unicode_len() as u128
        + id_token.unicode_len() as u128 + "post_logout_redirect_uri".unicode_len() as u128
        + post_logout_redirect_uri.unicode_len() as u128;
    if 12 * characters + 8 > u32::MAX as u128 {
        return None;
    }
    match url_append_pairs(
        base.as_str(),
        "id_token_hint",
        id_token,
        "post_logout_redirect_uri",
        post_logout_redirect_uri,
    ) {
        Ok(address) => Some(address),
        Err(_) => None,
    }
}

} // verus!
