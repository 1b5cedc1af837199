use city_tiles_pos::auth::jwt::Claims;
use city_tiles_pos::auth::middleware::{bearer_token, check_admin, check_cashier_or_admin};
use city_tiles_pos::auth::password::{hash_password, verify_password};
use city_tiles_pos::commands::auth::{account_for_registration, authenticate, check_email_free,
    new_account_profile, AdminExistsOutput, RegisterInput, UserInfo};
use city_tiles_pos::commands::backup::backups_dir;
use city_tiles_pos::config::{app_data_dir_for, choose_jwt_secret, hex_encode, Config, SecretChoice, JWT_EXPIRY_HOURS, JWT_KEY_BYTES};
use city_tiles_pos::error::AppError;
use city_tiles_pos::repositories::users::User;

fn claims(roles: &[&str]) -> Claims {
    Claims::issued_at("u1".into(), "a@b.c".into(), roles.iter().map(|r| r.to_string()).collect(), 1_000, 24)
}

fn user(status: &str, hash: &str) -> User {
    User {
        id: "u1".into(),
        email: "owner@citytiles.pk".into(),
        password_hash: hash.into(),
        full_name: "Owner".into(),
        phone: None,
        employee_id: None,
        status: status.into(),
        roles: vec!["admin".into()],
        created_at: String::new(),
        updated_at: String::new(),
    }
}

#[test]
fn claims_expire_after_the_configured_hours() {
    let c = claims(&["admin"]);
    assert_eq!(c.iat, 1_000);
    assert_eq!(c.exp, 1_000 + 24 * 3600);
    let now = Claims::new("u2".into(), "x@y.z".into(), vec![]);
    assert_eq!(now.exp - now.iat, JWT_EXPIRY_HOURS * 3600);
    assert_eq!(now.sub, "u2");
}

#[test]
fn roles_are_matched_exactly() {
    let c = claims(&["cashier"]);
    assert!(c.has_role("cashier"));
    assert!(!c.has_role("admin"));
    assert!(!c.has_role("Cashier"));
}

#[test]
fn role_checks_guard_commands() {
    assert!(check_admin(&claims(&["admin"])).is_ok());
    match check_admin(&claims(&["cashier"])) {
        Err(AppError::Forbidden(m)) => assert_eq!(m, "Admin role required"),
        other => panic!("unexpected {:?}", other),
    }
    assert!(check_cashier_or_admin(&claims(&["cashier"])).is_ok());
    assert!(check_cashier_or_admin(&claims(&["admin"])).is_ok());
    match check_cashier_or_admin(&claims(&["viewer"])) {
        Err(AppError::Forbidden(m)) => assert_eq!(m, "Cashier or admin role required"),
        other => panic!("unexpected {:?}", other),
    }
}

#[test]
fn bearer_tokens_are_read_from_the_header() {
    assert_eq!(bearer_token(Some("Bearer abc.def".into())).unwrap(), "abc.def");
    assert_eq!(bearer_token(Some("Bearer ".into())).unwrap(), "");
    for bad in [Some("Basic abc".to_string()), Some("bearer abc".to_string()), None] {
        match bearer_token(bad) {
            Err(AppError::Auth(m)) => assert_eq!(m, "Missing or invalid Authorization header"),
            other => panic!("unexpected {:?}", other),
        }
    }
}

#[test]
fn a_hashed_password_verifies() {
    let h = hash_password("s3cret!").unwrap();
    assert_eq!(h.len(), 60);
    assert!(h.starts_with("$2b$12$"));
    assert!(verify_password("s3cret!", &h).unwrap());
    assert!(!verify_password("wrong", &h).unwrap());
    assert!(matches!(verify_password("s3cret!", "not a hash"), Err(AppError::PasswordHash(_))));
}

#[test]
fn sign_in_requires_an_approved_account_and_the_right_password() {
    let h = hash_password("pw").unwrap();
    assert!(matches!(authenticate(None, "pw"), Err(AppError::InvalidCredentials)));
    match authenticate(Some(user("pending", &h)), "pw") {
        Err(AppError::Auth(m)) => assert_eq!(m, "Account not approved"),
        other => panic!("unexpected {:?}", other),
    }
    assert!(matches!(authenticate(Some(user("approved", &h)), "nope"), Err(AppError::InvalidCredentials)));
    assert!(matches!(authenticate(Some(user("approved", "garbage")), "pw"), Err(AppError::PasswordHash(_))));
    let u = authenticate(Some(user("approved", &h)), "pw").unwrap();
    assert_eq!(u.email, "owner@citytiles.pk");
    let info = UserInfo::from_user(u);
    assert_eq!(info.roles, vec!["admin".to_string()]);
    assert_eq!(info.status, "approved");
}

#[test]
fn the_first_account_is_an_approved_admin() {
    assert_eq!(new_account_profile(0), ("approved".to_string(), vec!["admin".to_string()]));
    assert_eq!(new_account_profile(3), ("pending".to_string(), vec!["cashier".to_string()]));
    let input = RegisterInput {
        email: "new@citytiles.pk".into(),
        password: "pw".into(),
        full_name: "New Cashier".into(),
        phone: Some("0300".into()),
        employee_id: None,
    };
    let rec = account_for_registration(input, "HASH".into(), 1);
    assert_eq!(rec.status, "pending");
    assert_eq!(rec.roles, vec!["cashier".to_string()]);
    assert_eq!(rec.password_hash, "HASH");
    assert_eq!(rec.phone, Some("0300".to_string()));
    assert!(AdminExistsOutput::from_count(1).exists);
    assert!(!AdminExistsOutput::from_count(0).exists);
}

#[test]
fn registering_a_taken_email_is_a_conflict() {
    assert!(check_email_free(&None).is_ok());
    match check_email_free(&Some(user("approved", "x"))) {
        Err(AppError::Conflict(m)) => assert_eq!(m, "Email already registered"),
        other => panic!("unexpected {:?}", other),
    }
}

#[test]
fn configuration_holds_the_resolved_secret() {
    let c = Config::new(None, "s3cret".into());
    assert_eq!(c.jwt_secret_bytes(), b"s3cret");
    assert_eq!(c.jwt_expiry_hours, 24);
    assert_eq!(c.bcrypt_cost, 12);
    let d = Config::new(Some("D:\\Data".into()), "k\u{e9}y".into());
    assert_eq!(d.jwt_secret_bytes(), "k\u{e9}y".as_bytes());
    assert!(d.db_path.ends_with("citytiles.db"));
    assert!(d.app_data_dir.ends_with("CityTiles"));
}

#[test]
fn the_environment_secret_wins_then_the_key_file() {
    assert!(matches!(choose_jwt_secret(Some("env".into()), Some("file".into())), SecretChoice::Env(s) if s == "env"));
    assert!(matches!(choose_jwt_secret(None, Some(" abc123\n".into())), SecretChoice::Stored(s) if s == "abc123"));
    assert!(matches!(choose_jwt_secret(None, Some("  \n".into())), SecretChoice::Fresh));
    assert!(matches!(choose_jwt_secret(None, None), SecretChoice::Fresh));
    assert_eq!(hex_encode(&vec![0x00, 0x0f, 0xa5, 0xff]), "000fa5ff");
    assert_eq!(hex_encode(&vec![7u8; JWT_KEY_BYTES]).len(), 64);
}

#[test]
fn errors_render_their_messages() {
    assert_eq!(AppError::InvalidCredentials.message(), "Invalid credentials");
    assert_eq!(AppError::NotFound("Invoice not found".into()).message(), "Not found: Invoice not found");
    assert_eq!(AppError::Validation("x".into()).message(), "Validation error: x");
}

#[test]
fn the_data_directory_adjoins_city_tiles_to_the_base() {
    let sep = std::path::MAIN_SEPARATOR;
    let d = app_data_dir_for(Some("/srv/data".into()));
    assert_eq!(d.to_string_lossy(), format!("/srv/data{}CityTiles", sep));
    let w = app_data_dir_for(None);
    assert!(w.to_string_lossy().starts_with("C:\\ProgramData"));
    assert!(w.to_string_lossy().ends_with("CityTiles"));
    let c = Config::new(Some("/srv/data".into()), "k".into());
    assert_eq!(backups_dir(&c).to_string_lossy(), format!("/srv/data{}CityTiles{}backups", sep, sep));
}
