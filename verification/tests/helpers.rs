use landing_form::dto::EmailPayload;
use landing_form::insert::subscription_email;
use landing_form::jwt::{create_jwt_at, token_claims};
use landing_form::metrics::{is_tracked_path, metrics_route_key};
use landing_form::responses::{DefaultResponse, LoginResponse};

const SECRET: &str = "a-test-signing-secret";

#[test]
fn decoded_claims_carry_the_issue_instant() {
    let token = create_jwt_at(SECRET, 1_700_000_000).unwrap();
    let claims = token_claims(&token, SECRET).expect("a fresh token decodes");
    assert_eq!(claims.iat, 1_700_000_000);
    assert_eq!(claims.exp, 1_700_000_600);
    assert!(!claims.expired_at(1_700_000_600));
    assert!(claims.expired_at(1_700_000_601));
}

#[test]
fn bad_token_has_no_claims() {
    assert!(token_claims("junk", SECRET).is_none());
}

#[test]
fn mail_payload_addresses_the_recipient() {
    let mail = subscription_email("John Johnson".to_string(), "john@example.com".to_string());
    assert_eq!(mail.to_address(), "John Johnson <john@example.com>");
    assert_eq!(mail.subject, "Subscription is activated");
    assert_eq!(mail.message, "Welcome to Manuspect!");
}

#[test]
fn mail_payload_fields_carry_over() {
    let mail = EmailPayload {
        full_name: "A".to_string(),
        subject: "S".to_string(),
        email: "a@b.c".to_string(),
        message: "M".to_string(),
    };
    assert_eq!(mail.to_address(), "A <a@b.c>");
}

#[test]
fn route_keys_take_the_first_segment() {
    assert_eq!(metrics_route_key("/insert"), Some("/insert".to_string()));
    assert_eq!(
        metrics_route_key("/swagger-ui/index.html"),
        Some("/swagger-ui".to_string())
    );
    assert_eq!(metrics_route_key("/"), Some("/".to_string()));
    assert_eq!(metrics_route_key("no-slash"), None);
}

#[test]
fn only_listed_routes_are_tracked() {
    let allowed = vec![
        "/".to_string(),
        "/metrics".to_string(),
        "/insert".to_string(),
    ];
    assert_eq!(
        is_tracked_path("/insert", &allowed),
        Some("/insert".to_string())
    );
    assert_eq!(is_tracked_path("/elsewhere", &allowed), None);
    assert_eq!(is_tracked_path("plain", &allowed), None);
}

#[test]
fn response_bodies_carry_their_fields() {
    let d = DefaultResponse {
        status_code: 200,
        message: Some("hello".to_string()),
        redirect: None,
    };
    let body = d.body();
    assert_eq!(body.message.as_deref(), Some("hello"));
    assert!(body.redirect.is_none());

    let l = LoginResponse {
        status_code: 200,
        message: "ok".to_string(),
        token: Some("tok".to_string()),
    };
    let body = l.body();
    assert_eq!(body.message, "ok");
    assert_eq!(body.token.as_deref(), Some("tok"));
}
