use kyc_service::config::{parse_port, Config, ConfigError};
use kyc_service::errors::KycError;
use kyc_service::http::{
    respond_create, respond_delete, respond_get, respond_update, HttpResponse, ResponseBody,
};
use kyc_service::model::NewKYCEntry;
use kyc_service::store::KycStore;

fn entry_id(r: &HttpResponse) -> i32 {
    match &r.body {
        ResponseBody::Entry(e) => e.id,
        _ => panic!("expected an entry body"),
    }
}

fn error_text(r: &HttpResponse) -> String {
    match &r.body {
        ResponseBody::Error(m) => m.clone(),
        _ => panic!("expected an error body"),
    }
}

#[test]
fn scenario_post_get_put_delete_get() {
    let mut store = KycStore::new();

    let created = respond_create(store.create_kyc_entry(
        NewKYCEntry {
            user_email: "a@b.com".to_string(),
            identity_hash: "h1".to_string(),
            status: "pending".to_string(),
        },
        1_000,
    ));
    assert_eq!(created.status, 201);
    let id = entry_id(&created);

    let got = respond_get(store.get_kyc_by_email("a@b.com".to_string()));
    assert_eq!(got.status, 200);
    assert_eq!(entry_id(&got), id);

    let updated = respond_update(store.update_kyc_status(
        "a@b.com".to_string(),
        "verified".to_string(),
        2_000,
    ));
    assert_eq!(updated.status, 200);
    match &updated.body {
        ResponseBody::Entry(e) => assert_eq!(e.status, "verified"),
        _ => panic!("expected an entry body"),
    }

    let deleted = respond_delete(store.delete_kyc_by_email("a@b.com".to_string()));
    assert_eq!(deleted.status, 200);
    match &deleted.body {
        ResponseBody::Message(m) => assert_eq!(m.as_str(), "KYC entry deleted"),
        _ => panic!("expected a message body"),
    }

    let gone = respond_get(store.get_kyc_by_email("a@b.com".to_string()));
    assert_eq!(gone.status, 404);
    assert_eq!(error_text(&gone), "KYC n\u{e3}o encontrado");
}

#[test]
fn error_statuses_and_messages() {
    assert_eq!(KycError::InvalidInput.http_status(), 400);
    assert_eq!(KycError::Conflict.http_status(), 409);
    assert_eq!(KycError::NotFound.http_status(), 404);
    assert_eq!(KycError::PoolExhausted.http_status(), 500);
    assert_eq!(KycError::ConnectionError.http_status(), 500);
    assert_eq!(KycError::Internal.http_status(), 500);

    assert_eq!(
        KycError::InvalidInput.message(),
        "Invalid input: malformed e-mail or empty required field"
    );
    assert_eq!(KycError::Conflict.message(), "E-mail already registered");
    assert_eq!(KycError::NotFound.message(), "KYC n\u{e3}o encontrado");
    assert_eq!(KycError::PoolExhausted.message(), "Connection pool exhausted");
    assert_eq!(KycError::ConnectionError.message(), "Database connection error");
    assert_eq!(KycError::Internal.message(), "Internal server error");
}

#[test]
fn invalid_input_renders_as_bad_request() {
    let mut store = KycStore::new();
    let r = respond_create(store.create_kyc_entry(
        NewKYCEntry {
            user_email: "not-an-email".to_string(),
            identity_hash: "h1".to_string(),
            status: "pending".to_string(),
        },
        1,
    ));
    assert_eq!(r.status, 400);
    assert_eq!(
        error_text(&r),
        "Invalid input: malformed e-mail or empty required field"
    );
}

#[test]
fn duplicate_renders_as_conflict() {
    let mut store = KycStore::new();
    let entry = NewKYCEntry {
        user_email: "a@b.com".to_string(),
        identity_hash: "h1".to_string(),
        status: "pending".to_string(),
    };
    let again = NewKYCEntry {
        user_email: "a@b.com".to_string(),
        identity_hash: "h2".to_string(),
        status: "pending".to_string(),
    };
    store.create_kyc_entry(entry, 1).unwrap();
    let r = respond_create(store.create_kyc_entry(again, 2));
    assert_eq!(r.status, 409);
    assert_eq!(error_text(&r), "E-mail already registered");
}

#[test]
fn parse_port_accepts_decimal_ports() {
    assert_eq!(parse_port("8080"), Some(8080));
    assert_eq!(parse_port("0"), Some(0));
    assert_eq!(parse_port("007"), Some(7));
    assert_eq!(parse_port("65535"), Some(65535));
}

#[test]
fn parse_port_accepts_a_leading_plus_as_the_standard_parse_does() {
    assert_eq!(parse_port("+80"), Some(80));
    assert_eq!(parse_port("+0"), Some(0));
    assert_eq!(parse_port("+65535"), Some(65535));
    assert_eq!("+80".parse::<u16>().ok(), parse_port("+80"));
}

#[test]
fn parse_port_rejects_non_ports() {
    assert_eq!(parse_port(""), None);
    assert_eq!(parse_port("65536"), None);
    assert_eq!(parse_port("123456789"), None);
    assert_eq!(parse_port("80a"), None);
    assert_eq!(parse_port("-1"), None);
    assert_eq!(parse_port(" 80"), None);
    assert_eq!(parse_port("+"), None);
    assert_eq!(parse_port("++80"), None);
    assert_eq!(parse_port("+65536"), None);
    assert_eq!(parse_port("80+"), None);
}

#[test]
fn config_requires_database_url() {
    let r = Config::from_values(None, None);
    assert_eq!(r.unwrap_err(), ConfigError::MissingDatabaseUrl);
    assert_eq!(
        ConfigError::MissingDatabaseUrl.message(),
        "DATABASE_URL is not set"
    );
}

#[test]
fn config_defaults_and_parses_the_port() {
    let c = Config::from_values(Some("postgres://localhost/kyc".to_string()), None).unwrap();
    assert_eq!(c.database_url, "postgres://localhost/kyc");
    assert_eq!(c.server_port, 8080);

    let c = Config::from_values(
        Some("postgres://localhost/kyc".to_string()),
        Some("9000".to_string()),
    )
    .unwrap();
    assert_eq!(c.server_port, 9000);

    let c = Config::from_values(
        Some("postgres://localhost/kyc".to_string()),
        Some("+9000".to_string()),
    )
    .unwrap();
    assert_eq!(c.server_port, 9000);

    let r = Config::from_values(
        Some("postgres://localhost/kyc".to_string()),
        Some("what".to_string()),
    );
    assert_eq!(r.unwrap_err(), ConfigError::InvalidServerPort);
    assert_eq!(ConfigError::InvalidServerPort.message(), "SERVER_PORT is invalid");
}
