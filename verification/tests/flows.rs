use landing_form::auth_guard::auth_guard_at;
use landing_form::auth_service::{AuthController, AuthService};
use landing_form::authorizer::ProtectedPathTable;
use landing_form::dto::{LoginUserDto, RegisterUserDto};
use landing_form::register::{register_at, register_response};
use landing_form::login::login_at;
use landing_form::store::IdentityStore;

const SECRET: &str = "a-test-signing-secret";
const SALT: &str = "a-test-salt-of-16";
const NOW: i64 = 1_700_000_000;

fn john() -> RegisterUserDto {
    RegisterUserDto {
        name: "John".to_string(),
        email: Some("j@x.com".to_string()),
        phone_number_code: 1,
        phone_number: "1111111111".to_string(),
        password: Some("qwerty123".to_string()),
    }
}

#[test]
fn register_fresh_phone_yields_verified_row_and_token() {
    let mut store = IdentityStore::new();
    let token = register_at(&mut store, john(), SALT, SECRET, NOW)
        .expect("registration should succeed")
        .access_token
        .expect("an access token is issued");
    assert!(!token.is_empty());
    assert_eq!(store.users.len(), 1);
    let row = &store.users[0];
    assert!(row.verified);
    assert_eq!(row.id, 1);
    assert_eq!(row.token.as_deref(), Some(token.as_str()));
    assert_eq!(row.phone_number, "1111111111");
    assert_ne!(row.password.as_deref(), Some("qwerty123"));
    assert_eq!(store.user_roles, vec![(1, 1)]);
}

#[test]
fn register_invalid_form_rejected_with_message() {
    let mut store = IdentityStore::new();
    let mut form = john();
    form.password = None;
    let err = register_at(&mut store, form, SALT, SECRET, NOW).unwrap_err();
    assert_eq!(err.code, 401);
    assert_eq!(err.message, "The password cannot be absent");
    assert_eq!(store.users.len(), 0);
}

#[test]
fn register_verified_phone_conflicts_regardless_of_fields() {
    let mut store = IdentityStore::new();
    register_at(&mut store, john(), SALT, SECRET, NOW).unwrap();
    let mut again = john();
    again.name = "Johnny".to_string();
    again.email = Some("other@y.org".to_string());
    again.password = Some("different1".to_string());
    let err = register_at(&mut store, again, SALT, SECRET, NOW + 5).unwrap_err();
    assert_eq!(err.code, 401);
    assert_eq!(err.message, "The user has already been registered");
    assert_eq!(store.users.len(), 1);
}

#[test]
fn register_claims_unverified_row_in_place() {
    let mut store = IdentityStore::new();
    // a lighter-weight pre-registration creates the unverified row
    let mut claim = john();
    claim.password = None;
    claim.email = None;
    let res = landing_form::insert::insert(&mut store, claim);
    assert_eq!(res.status_code, 200);
    assert_eq!(store.users.len(), 1);
    let claimed_id = store.users[0].id;
    assert!(!store.users[0].verified);

    // completing the signup claims the same row instead of adding one
    let token = register_at(&mut store, john(), SALT, SECRET, NOW)
        .unwrap()
        .access_token
        .unwrap();
    assert!(!token.is_empty());
    assert_eq!(store.users.len(), 1);
    assert_eq!(store.users[0].id, claimed_id);
    assert!(store.users[0].verified);
    assert_eq!(store.users[0].email.as_deref(), Some("j@x.com"));
}

#[test]
fn register_twice_on_unverified_row_is_idempotent() {
    let mut store = IdentityStore::new();
    let mut claim = john();
    claim.password = None;
    let res = landing_form::insert::insert(&mut store, claim);
    assert_eq!(res.status_code, 200);

    // two completion attempts with valid data: the second conflicts
    // (the first verified the row), and no duplicate row ever appears
    register_at(&mut store, john(), SALT, SECRET, NOW).unwrap();
    assert_eq!(store.users.len(), 1);
    let err = register_at(&mut store, john(), SALT, SECRET, NOW + 1).unwrap_err();
    assert_eq!(err.message, "The user has already been registered");
    assert_eq!(store.users.len(), 1);
}

#[test]
fn register_response_shapes_success_and_failure() {
    let mut store = IdentityStore::new();
    let ok = register_response(&mut store, john(), SALT, SECRET);
    assert_eq!(ok.status_code, 200);
    assert_eq!(ok.message, "SUCCESSFUL AUTHORIZATION");
    assert!(ok.token.is_some());
    let conflict = register_response(&mut store, john(), SALT, SECRET);
    assert_eq!(conflict.status_code, 401);
    assert_eq!(conflict.message, "The user has already been registered");
    assert!(conflict.token.is_none());
}

#[test]
fn login_with_correct_phone_and_password_issues_token() {
    let mut store = IdentityStore::new();
    register_at(&mut store, john(), SALT, SECRET, NOW).unwrap();
    let form = LoginUserDto {
        email: None,
        phone_number_code: Some(1),
        phone_number: Some("1111111111".to_string()),
        password: "qwerty123".to_string(),
    };
    let token = login_at(&mut store, form, SALT, SECRET, NOW + 60)
        .expect("login should succeed")
        .access_token
        .unwrap();
    assert!(!token.is_empty());
    // the fresh token replaced the registration one on the row
    assert_eq!(store.users[0].token.as_deref(), Some(token.as_str()));
}

#[test]
fn login_wrong_password_and_unknown_phone_look_identical() {
    let mut store = IdentityStore::new();
    register_at(&mut store, john(), SALT, SECRET, NOW).unwrap();
    let wrong_password = LoginUserDto {
        email: None,
        phone_number_code: Some(1),
        phone_number: Some("1111111111".to_string()),
        password: "wrong".to_string(),
    };
    let unknown_phone = LoginUserDto {
        email: None,
        phone_number_code: Some(44),
        phone_number: Some("9999999999".to_string()),
        password: "qwerty123".to_string(),
    };
    let e1 = login_at(&mut store, wrong_password, SALT, SECRET, NOW).unwrap_err();
    let e2 = login_at(&mut store, unknown_phone, SALT, SECRET, NOW).unwrap_err();
    assert_eq!(e1.code, 401);
    assert_eq!(e2.code, 401);
    assert_eq!(e1.message, e2.message);
    assert_eq!(e1.message, "The login or password or both are incorrect");
}

#[test]
fn login_by_email_works_and_phone_takes_precedence() {
    let mut store = IdentityStore::new();
    register_at(&mut store, john(), SALT, SECRET, NOW).unwrap();
    let by_email = LoginUserDto {
        email: Some("j@x.com".to_string()),
        phone_number_code: None,
        phone_number: None,
        password: "qwerty123".to_string(),
    };
    assert!(login_at(&mut store, by_email, SALT, SECRET, NOW).is_ok());
    // a bogus phone pair beats a correct email
    let both = LoginUserDto {
        email: Some("j@x.com".to_string()),
        phone_number_code: Some(7),
        phone_number: Some("7777777777".to_string()),
        password: "qwerty123".to_string(),
    };
    let err = login_at(&mut store, both, SALT, SECRET, NOW).unwrap_err();
    assert_eq!(err.code, 401);
}

#[test]
fn login_without_identifier_rejected() {
    let mut store = IdentityStore::new();
    register_at(&mut store, john(), SALT, SECRET, NOW).unwrap();
    let form = LoginUserDto {
        email: None,
        phone_number_code: None,
        phone_number: None,
        password: "qwerty123".to_string(),
    };
    let err = login_at(&mut store, form, SALT, SECRET, NOW).unwrap_err();
    assert_eq!(err.code, 401);
    assert_eq!(err.message, "The login or password or both are incorrect");
}

#[test]
fn controller_login_delegates_to_service() {
    let mut store = IdentityStore::new();
    AuthService::register(&mut store, john(), SALT, SECRET).unwrap();
    let controller = AuthController::new();
    let form = LoginUserDto {
        email: Some("j@x.com".to_string()),
        phone_number_code: None,
        phone_number: None,
        password: "qwerty123".to_string(),
    };
    assert!(controller.login(&mut store, form, SALT, SECRET).is_ok());
}

#[test]
fn example_signup_scenario() {
    // register John, attempt a hostile login, then log in properly
    let mut store = IdentityStore::new();
    let token = register_at(&mut store, john(), SALT, SECRET, NOW)
        .unwrap()
        .access_token
        .unwrap();
    assert!(!token.is_empty());
    assert_eq!(store.users[0].id, 1);

    let hostile = LoginUserDto {
        email: None,
        phone_number_code: Some(1),
        phone_number: Some("1111111111".to_string()),
        password: "wrong".to_string(),
    };
    let err = login_at(&mut store, hostile, SALT, SECRET, NOW + 1).unwrap_err();
    assert_eq!(err.code, 401);
    assert_eq!(err.message, "The login or password or both are incorrect");

    let honest = LoginUserDto {
        email: None,
        phone_number_code: Some(1),
        phone_number: Some("1111111111".to_string()),
        password: "qwerty123".to_string(),
    };
    let fresh = login_at(&mut store, honest, SALT, SECRET, NOW + 2)
        .unwrap()
        .access_token
        .unwrap();
    assert_eq!(store.users[0].id, 1);
    assert_eq!(store.users[0].token.as_deref(), Some(fresh.as_str()));
}

#[test]
fn insert() {
    let mut store = IdentityStore::new();
    let new_user = RegisterUserDto {
        name: "John".to_string(),
        email: Some("john@example.com".to_string()),
        phone_number_code: 1,
        phone_number: "1111111111".to_string(),
        password: None,
    };
    let res = landing_form::insert::insert(&mut store, new_user);
    assert_eq!(res.message.unwrap(), "The subscription was successful!");
}

#[test]
fn insert_duplicate_phone_rejected() {
    let mut store = IdentityStore::new();
    let mut first = john();
    first.password = None;
    assert_eq!(landing_form::insert::insert(&mut store, first).status_code, 200);
    let mut second = john();
    second.email = Some("someone@else.net".to_string());
    let res = landing_form::insert::insert(&mut store, second);
    assert_eq!(res.status_code, 401);
    assert_eq!(
        res.message.unwrap(),
        "The user with this phone number already exists"
    );
    assert_eq!(store.users.len(), 1);
}

#[test]
fn insert_duplicate_email_rejected() {
    let mut store = IdentityStore::new();
    let mut first = john();
    first.password = None;
    assert_eq!(landing_form::insert::insert(&mut store, first).status_code, 200);
    let mut second = john();
    second.phone_number = "2222222222".to_string();
    let res = landing_form::insert::insert(&mut store, second);
    assert_eq!(res.status_code, 401);
    assert_eq!(
        res.message.unwrap(),
        "The user with this email already exists"
    );
    assert_eq!(store.users.len(), 1);
}

#[test]
fn guard_admits_token_holder_with_role() {
    let mut store = IdentityStore::new();
    store.add_role(1, "user".to_string());
    let token = register_at(&mut store, john(), SALT, SECRET, NOW)
        .unwrap()
        .access_token
        .unwrap();
    let table = ProtectedPathTable::new();
    let (identity, roles) =
        auth_guard_at(&store, &table, &token, "/profile", SECRET, NOW + 10).expect("admitted");
    assert_eq!(identity.id, 1);
    assert_eq!(roles, vec!["user".to_string()]);
}

#[test]
fn guard_rejects_unknown_token() {
    let store = IdentityStore::new();
    let table = ProtectedPathTable::new();
    let err = auth_guard_at(&store, &table, "no-such-token", "/", SECRET, NOW).unwrap_err();
    assert_eq!(err.status_code, 401);
    assert_eq!(
        err.message.unwrap(),
        "You are not authorized, please log in"
    );
}

#[test]
fn guard_roleless_identity_passes_only_unprotected_paths() {
    let mut store = IdentityStore::new();
    // no role vocabulary entry: the assigned role id resolves to nothing
    let token = register_at(&mut store, john(), SALT, SECRET, NOW)
        .unwrap()
        .access_token
        .unwrap();
    let mut table = ProtectedPathTable::new();
    table.protect("/admin".to_string(), vec!["admin".to_string()]);
    let (_, roles) = auth_guard_at(&store, &table, &token, "/", SECRET, NOW).expect("admitted");
    assert!(roles.is_empty());
    let err = auth_guard_at(&store, &table, &token, "/admin", SECRET, NOW).unwrap_err();
    assert_eq!(err.status_code, 401);
    assert_eq!(
        err.message.unwrap(),
        "You do not have permissions to access this page"
    );
}

#[test]
fn guard_rejects_expired_token() {
    let mut store = IdentityStore::new();
    store.add_role(1, "user".to_string());
    let token = register_at(&mut store, john(), SALT, SECRET, NOW)
        .unwrap()
        .access_token
        .unwrap();
    let table = ProtectedPathTable::new();
    let err = auth_guard_at(&store, &table, &token, "/", SECRET, NOW + 601).unwrap_err();
    assert_eq!(err.status_code, 401);
    assert_eq!(
        err.message.unwrap(),
        "Your session has expired, please log in again"
    );
}

#[test]
fn guard_rejects_missing_permission() {
    let mut store = IdentityStore::new();
    store.add_role(1, "user".to_string());
    let token = register_at(&mut store, john(), SALT, SECRET, NOW)
        .unwrap()
        .access_token
        .unwrap();
    let mut table = ProtectedPathTable::new();
    table.protect("/admin".to_string(), vec!["admin".to_string()]);
    let err = auth_guard_at(&store, &table, &token, "/admin", SECRET, NOW).unwrap_err();
    assert_eq!(err.status_code, 401);
    assert_eq!(
        err.message.unwrap(),
        "You do not have permissions to access this page"
    );
}

#[test]
fn guard_writes_nothing() {
    let mut store = IdentityStore::new();
    store.add_role(1, "user".to_string());
    let token = register_at(&mut store, john(), SALT, SECRET, NOW)
        .unwrap()
        .access_token
        .unwrap();
    let users_before = store.users.len();
    let table = ProtectedPathTable::new();
    auth_guard_at(&store, &table, &token, "/", SECRET, NOW).unwrap();
    assert_eq!(store.users.len(), users_before);
    assert_eq!(store.users[0].token.as_deref(), Some(token.as_str()));
}
