use gm::error::AuthError;
use gm::auth::{
    clone_roles, contains_role, insert_role, roles_within, Auth, AuthenticatedUser, Role, SessionId,
    SESSION_ID,
};

fn user(roles: Vec<Role>) -> AuthenticatedUser {
    AuthenticatedUser { subject: "sub-1".to_string(), name: "Ann".to_string(), roles }
}

fn custom(name: &str) -> Role {
    Role::Custom(name.to_string())
}

#[test]
fn the_session_cookie_is_called_session_id() {
    assert_eq!(SESSION_ID, "session_id");
    assert_eq!(SessionId("abc".to_string()).0, "abc");
}

#[test]
fn built_in_roles_are_recognised_in_any_case() {
    assert_eq!(Role::from_string("admin"), Role::Admin);
    assert_eq!(Role::from_string("ADMIN"), Role::Admin);
    assert_eq!(Role::from_string("Admin"), Role::Admin);
    assert_eq!(Role::from_string("uSeR"), Role::User);
    assert_eq!(Role::from_string("Editor"), custom("Editor"));
    assert_eq!(Role::from_string(""), custom(""));
    assert_eq!(Role::from_string(" admin"), custom(" admin"));
    assert_eq!(Role::from_string("admins"), custom("admins"));
}

#[test]
fn classify_goes_by_the_lowered_name_and_keeps_the_spelling() {
    assert_eq!(Role::classify("admin", "AdMiN"), Role::Admin);
    assert_eq!(Role::classify("user", "whatever"), Role::User);
    assert_eq!(Role::classify("ops", "Ops"), custom("Ops"));
    assert_eq!(Role::classify("Admin", "Admin"), custom("Admin"));
}

#[test]
fn a_role_is_written_under_its_name() {
    assert_eq!(Role::Admin.as_str(), "admin");
    assert_eq!(Role::User.as_str(), "user");
    assert_eq!(custom("Ops").as_str(), "Ops");
}

#[test]
fn roles_compare_by_what_they_hold() {
    assert_eq!(custom("a"), custom("a"));
    assert_ne!(custom("a"), custom("b"));
    assert_ne!(custom("admin"), Role::Admin);
    assert_ne!(Role::Admin, Role::User);
    assert_eq!(custom("x").clone(), custom("x"));
    assert_eq!(clone_roles(&vec![Role::User, custom("x")]), vec![Role::User, custom("x")]);
}

#[test]
fn has_role_looks_for_one_role() {
    let u = user(vec![Role::User, custom("ops")]);
    assert!(u.has_role(&Role::User));
    assert!(u.has_role(&custom("ops")));
    assert!(!u.has_role(&custom("Ops")));
    assert!(!u.has_role(&Role::Admin));
    assert!(!user(vec![]).has_role(&Role::User));
    assert!(contains_role(&u.roles, &Role::User));
}

#[test]
fn has_any_role_and_has_all_roles() {
    let u = user(vec![Role::User, custom("ops")]);
    assert!(u.has_any_role(&[Role::Admin, Role::User]));
    assert!(!u.has_any_role(&[Role::Admin, custom("dev")]));
    assert!(!u.has_any_role(&[]));
    assert!(u.has_all_roles(&[custom("ops"), Role::User]));
    assert!(!u.has_all_roles(&[Role::User, Role::Admin]));
    assert!(u.has_all_roles(&[]));
    assert!(roles_within(&vec![custom("ops")], &u.roles));
    assert!(!roles_within(&u.roles, &vec![custom("ops")]));
}

#[test]
fn is_admin_asks_for_the_admin_role() {
    assert!(user(vec![custom("x"), Role::Admin]).is_admin());
    assert!(!user(vec![Role::User, custom("admin")]).is_admin());
}

#[test]
fn insert_role_adds_a_role_once() {
    let mut roles = vec![Role::User];
    insert_role(&mut roles, custom("a"));
    insert_role(&mut roles, Role::User);
    insert_role(&mut roles, custom("a"));
    insert_role(&mut roles, Role::Admin);
    assert_eq!(roles, vec![Role::User, custom("a"), Role::Admin]);
}

#[test]
fn auth_tells_who_is_signed_in() {
    let nobody = Auth::Unauthenticated;
    assert!(!nobody.is_authenticated());
    assert!(!nobody.is_authenticated_guest());
    assert!(!nobody.is_authenticated_admin());

    let guest = Auth::Authenticated(user(vec![]));
    assert!(guest.is_authenticated());
    assert!(guest.is_authenticated_guest());
    assert!(!guest.is_authenticated_admin());

    let other = Auth::Authenticated(user(vec![custom("viewer")]));
    assert!(other.is_authenticated_guest());

    let plain = Auth::Authenticated(user(vec![Role::User]));
    assert!(!plain.is_authenticated_guest());
    assert!(!plain.is_authenticated_admin());

    let admin = Auth::Authenticated(user(vec![custom("viewer"), Role::Admin]));
    assert!(!admin.is_authenticated_guest());
    assert!(admin.is_authenticated_admin());
}

#[test]
fn users_are_equal_whatever_the_order_of_their_roles() {
    let a = user(vec![Role::User, custom("x")]);
    let b = user(vec![custom("x"), Role::User, custom("x")]);
    assert_eq!(a, b);
    assert_ne!(a, user(vec![Role::User]));
    assert_ne!(user(vec![Role::User]), a);
    let mut renamed = user(vec![Role::User, custom("x")]);
    renamed.name = "Bob".to_string();
    assert_ne!(a, renamed);
    assert_eq!(Auth::Authenticated(a), Auth::Authenticated(b));
    assert_ne!(Auth::Authenticated(renamed), Auth::Unauthenticated);
    assert_eq!(Auth::Unauthenticated, Auth::Unauthenticated);
}

#[test]
fn every_error_has_its_message() {
    assert_eq!(AuthError::TokenExpired.message(), "Token expired");
    assert_eq!(AuthError::InvalidToken.message(), "Invalid token");
    assert_eq!(AuthError::NoRefreshToken.message(), "No refresh token");
    assert_eq!(AuthError::RateLimited.message(), "Rate is over");
    assert_eq!(AuthError::HttpError("timeout".to_string()).message(), "HTTP error: timeout");
    assert_eq!(AuthError::JwtError("bad".to_string()).message(), "JWT error: bad");
    assert_eq!(AuthError::Network("down".to_string()).message(), "Network error: down");
    assert_eq!(
        AuthError::ExchangeFailed("502 Bad Gateway".to_string()).message(),
        "Token exchange failed with status: 502 Bad Gateway"
    );
    assert_eq!(
        AuthError::Parse("eof".to_string()).message(),
        "Failed to parse token response: eof"
    );
}
