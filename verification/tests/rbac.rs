use gm::auth::Claims;
use gm::rbac::{ensure_role, has_role, Authenticated, Rejection, Role};

fn with_roles(roles: Option<Vec<String>>) -> Claims {
    Claims { sub: "user1".to_string(), email: None, name: Some("User One".to_string()), roles, exp: 0 }
}

fn claims(roles: &[&str]) -> Claims {
    with_roles(Some(roles.iter().map(|r| r.to_string()).collect()))
}

#[test]
fn the_two_roles_have_lower_case_names() {
    assert_eq!(Role::Admin.as_str(), "admin");
    assert_eq!(Role::User.as_str(), "user");
}

#[test]
fn a_name_other_than_admin_is_a_user() {
    assert_eq!(Role::from("admin"), Role::Admin);
    assert_eq!(Role::from("Admin"), Role::Admin);
    assert_eq!(Role::from("ADMIN"), Role::User);
    assert_eq!(Role::from("user"), Role::User);
    assert_eq!(Role::from(""), Role::User);
    assert_eq!(Role::from("root"), Role::User);
}

#[test]
fn claims_grant_a_role_in_any_case_of_ascii_letters() {
    assert!(has_role(&claims(&["viewer", "ADMIN"]), Role::Admin));
    assert!(has_role(&claims(&["User"]), Role::User));
    assert!(!has_role(&claims(&["User"]), Role::Admin));
    assert!(!has_role(&claims(&["admin "]), Role::Admin));
    assert!(!has_role(&claims(&[]), Role::User));
    assert!(!has_role(&with_roles(None), Role::User));
}

#[test]
fn ensure_role_turns_away_with_403() {
    assert_eq!(ensure_role(&claims(&["admin"]), Role::Admin), Ok(()));
    assert_eq!(
        ensure_role(&claims(&["user"]), Role::Admin),
        Err(Rejection { status: 403, message: "Forbidden" })
    );
}

#[test]
fn a_request_without_claims_is_turned_away_with_401() {
    let with = Authenticated::from_claims(Some(claims(&["user"]))).unwrap();
    assert_eq!(with.0, claims(&["user"]));
    let without = Authenticated::from_claims(None).unwrap_err();
    assert_eq!(without, Rejection { status: 401, message: "Unauthorized" });
}
