use inventorix_server::auth::extractor::{authenticate, require_admin, AuthUser, Role};
use inventorix_server::auth::routes::{decoy_hash, hash_password, verify_password, LoginForm};
use inventorix_server::error::{found, AppError};
use inventorix_server::models::user::User;

fn user(role: &str, active: i64, hash: &str) -> User {
    User {
        id: 7,
        branch_id: 3,
        name: "Alice".to_string(),
        role: role.to_string(),
        email: "alice@test.com".to_string(),
        password_hash: hash.to_string(),
        territory: None,
        created_at: "2026-01-01 00:00:00".to_string(),
        is_active: active,
    }
}

fn auth(role: Role) -> AuthUser {
    AuthUser { id: 1, role, branch_id: 1, name: "Admin".to_string() }
}

#[test]
fn role_names_round_trip() {
    for (name, role) in [("admin", Role::Admin), ("coordinator", Role::Coordinator), ("sales_rep", Role::SalesRep)] {
        assert_eq!(Role::from_str(name), Some(role));
        assert_eq!(role.as_str(), name);
    }
}

#[test]
fn unknown_role_names_are_rejected() {
    assert_eq!(Role::from_str("Admin"), None);
    assert_eq!(Role::from_str(""), None);
    assert_eq!(Role::from_str("manager"), None);
}

#[test]
fn auth_user_role_predicates() {
    assert!(auth(Role::Admin).is_admin());
    assert!(!auth(Role::Admin).is_coordinator());
    assert!(auth(Role::Coordinator).is_coordinator());
    assert!(auth(Role::SalesRep).is_sales_rep());
    assert!(!auth(Role::SalesRep).is_admin());
}

#[test]
fn active_account_authenticates_with_its_role_and_branch() {
    let u = user("coordinator", 1, "x");
    let a = authenticate(Some(&u)).expect("active user");
    assert_eq!(a.role, Role::Coordinator);
    assert_eq!(a.id, 7);
    assert_eq!(a.branch_id, 3);
    assert_eq!(a.name, "Alice");
}

#[test]
fn missing_account_is_unauthorized() {
    assert!(matches!(authenticate(None), Err(AppError::Unauthorized)));
}

#[test]
fn deactivated_account_is_unauthorized() {
    let u = user("admin", 0, "x");
    assert!(matches!(authenticate(Some(&u)), Err(AppError::Unauthorized)));
}

#[test]
fn account_with_unknown_role_is_unauthorized() {
    let u = user("superuser", 1, "x");
    assert!(matches!(authenticate(Some(&u)), Err(AppError::Unauthorized)));
}

#[test]
fn only_admins_pass_the_admin_check() {
    assert!(require_admin(&auth(Role::Admin)).is_ok());
    assert!(matches!(require_admin(&auth(Role::Coordinator)), Err(AppError::Forbidden)));
    assert!(matches!(require_admin(&auth(Role::SalesRep)), Err(AppError::Forbidden)));
}

#[test]
fn created_password_logs_in_and_others_do_not() {
    let hash = hash_password("password123").expect("hashing succeeds");
    assert!(hash.starts_with("$argon2id$"));
    let u = user("coordinator", 1, &hash);
    assert!(verify_password("password123", Some(&u)));
    assert!(!verify_password("password124", Some(&u)));
}

#[test]
fn two_hashes_of_one_password_differ_but_both_verify() {
    let a = hash_password("secret").unwrap();
    let b = hash_password("secret").unwrap();
    assert_ne!(a, b);
    assert!(verify_password("secret", Some(&user("admin", 1, &a))));
    assert!(verify_password("secret", Some(&user("admin", 1, &b))));
}

#[test]
fn any_short_password_hashes() {
    let h = hash_password("").expect("an empty password hashes too");
    assert!(h.starts_with("$argon2id$"));
    assert!(verify_password("", Some(&user("admin", 1, &h))));
    assert!(!verify_password("x", Some(&user("admin", 1, &h))));
}

#[test]
fn unknown_email_never_logs_in() {
    assert!(!verify_password("password123", None));
    assert!(!verify_password("", None));
}

#[test]
fn unparsable_stored_hash_never_logs_in() {
    let u = user("admin", 1, "not-a-phc-string");
    assert!(!verify_password("anything", Some(&u)));
}

#[test]
fn decoy_hash_is_a_valid_argon2id_string() {
    assert!(decoy_hash().starts_with("$argon2id$v=19$"));
    let u = user("admin", 1, decoy_hash());
    assert!(!verify_password("password123", Some(&u)));
}

#[test]
fn login_form_holds_its_fields() {
    let f = LoginForm { email: "a@b.c".to_string(), password: "pw".to_string() };
    assert_eq!(f.email, "a@b.c");
    assert_eq!(f.password, "pw");
}

#[test]
fn found_or_not_found() {
    assert_eq!(found(Some(5)).unwrap(), 5);
    assert!(matches!(found::<i64>(None), Err(AppError::NotFound)));
}

#[test]
fn refusals_map_to_http_statuses() {
    assert_eq!(AppError::Unauthorized.status_code(), 401);
    assert_eq!(AppError::Forbidden.status_code(), 403);
    assert_eq!(AppError::NotFound.status_code(), 404);
    assert_eq!(AppError::Conflict("x".into()).status_code(), 409);
    assert_eq!(AppError::validation("x").status_code(), 422);
    assert_eq!(AppError::Internal("x".into()).status_code(), 500);
    assert!(matches!(AppError::conflict("taken".to_string()), AppError::Conflict(m) if m == "taken"));
}
