use kyc_service::errors::KycError;
use kyc_service::model::NewKYCEntry;
use kyc_service::store::KycStore;

fn new_entry(email: &str, hash: &str, status: &str) -> NewKYCEntry {
    NewKYCEntry {
        user_email: email.to_string(),
        identity_hash: hash.to_string(),
        status: status.to_string(),
    }
}

#[test]
fn create_returns_input_fields_and_fresh_ids() {
    let mut store = KycStore::new();
    let first = store
        .create_kyc_entry(new_entry("a@b.com", "h1", "pending"), 100)
        .unwrap();
    assert_eq!(first.id, 1);
    assert_eq!(first.user_email, "a@b.com");
    assert_eq!(first.identity_hash, "h1");
    assert_eq!(first.status, "pending");
    assert_eq!(first.created_at, 100);
    assert_eq!(first.updated_at, 100);

    let second = store
        .create_kyc_entry(new_entry("c@d.org", "h2", "pending"), 101)
        .unwrap();
    assert_eq!(second.id, 2);
    assert_ne!(first.id, second.id);
}

#[test]
fn read_after_write_returns_the_entry() {
    let mut store = KycStore::new();
    let created = store
        .create_kyc_entry(new_entry("a@b.com", "h1", "pending"), 7)
        .unwrap();
    let got = store
        .get_kyc_by_email("a@b.com".to_string())
        .unwrap()
        .unwrap();
    assert_eq!(got.id, created.id);
    assert_eq!(got.user_email, "a@b.com");
    assert_eq!(got.identity_hash, "h1");
    assert_eq!(got.status, "pending");
    assert_eq!(got.created_at, 7);
}

#[test]
fn get_of_never_created_email_is_absent_not_an_error() {
    let store = KycStore::new();
    let r = store.get_kyc_by_email("nobody@nowhere.net".to_string());
    assert!(r.unwrap().is_none());
}

#[test]
fn update_replaces_status_and_keeps_id() {
    let mut store = KycStore::new();
    let created = store
        .create_kyc_entry(new_entry("a@b.com", "h1", "pending"), 100)
        .unwrap();
    let updated = store
        .update_kyc_status("a@b.com".to_string(), "verified".to_string(), 200)
        .unwrap();
    assert_eq!(updated.id, created.id);
    assert_eq!(updated.status, "verified");
    assert_eq!(updated.user_email, "a@b.com");
    assert_eq!(updated.identity_hash, "h1");
    assert_eq!(updated.created_at, 100);
    assert_eq!(updated.updated_at, 200);
}

#[test]
fn update_of_missing_email_is_not_found() {
    let mut store = KycStore::new();
    let r = store.update_kyc_status("a@b.com".to_string(), "verified".to_string(), 1);
    assert_eq!(r.unwrap_err(), KycError::NotFound);
}

#[test]
fn delete_removes_the_entry() {
    let mut store = KycStore::new();
    store
        .create_kyc_entry(new_entry("a@b.com", "h1", "pending"), 1)
        .unwrap();
    store.delete_kyc_by_email("a@b.com".to_string()).unwrap();
    let r = store.get_kyc_by_email("a@b.com".to_string());
    assert!(r.unwrap().is_none());
}

#[test]
fn delete_of_missing_email_is_not_found() {
    let mut store = KycStore::new();
    let r = store.delete_kyc_by_email("a@b.com".to_string());
    assert_eq!(r.unwrap_err(), KycError::NotFound);
}

#[test]
fn duplicate_email_is_a_conflict_and_keeps_the_first_entry() {
    let mut store = KycStore::new();
    store
        .create_kyc_entry(new_entry("a@b.com", "h1", "pending"), 1)
        .unwrap();
    let second = store.create_kyc_entry(new_entry("a@b.com", "h2", "other"), 2);
    assert_eq!(second.unwrap_err(), KycError::Conflict);
    let kept = store
        .get_kyc_by_email("a@b.com".to_string())
        .unwrap()
        .unwrap();
    assert_eq!(kept.identity_hash, "h1");
    assert_eq!(kept.status, "pending");
}

#[test]
fn invalid_emails_are_rejected_by_every_operation() {
    let mut store = KycStore::new();
    for email in ["", "not-an-email"] {
        let c = store.create_kyc_entry(new_entry(email, "h1", "pending"), 1);
        assert_eq!(c.unwrap_err(), KycError::InvalidInput);
        let g = store.get_kyc_by_email(email.to_string());
        assert_eq!(g.unwrap_err(), KycError::InvalidInput);
        let u = store.update_kyc_status(email.to_string(), "verified".to_string(), 1);
        assert_eq!(u.unwrap_err(), KycError::InvalidInput);
        let d = store.delete_kyc_by_email(email.to_string());
        assert_eq!(d.unwrap_err(), KycError::InvalidInput);
    }
}

#[test]
fn empty_fields_are_rejected() {
    let mut store = KycStore::new();
    let no_hash = store.create_kyc_entry(new_entry("a@b.com", "", "pending"), 1);
    assert_eq!(no_hash.unwrap_err(), KycError::InvalidInput);
    let no_status = store.create_kyc_entry(new_entry("a@b.com", "h1", ""), 1);
    assert_eq!(no_status.unwrap_err(), KycError::InvalidInput);
    let empty_status = store.update_kyc_status("a@b.com".to_string(), "".to_string(), 1);
    assert_eq!(empty_status.unwrap_err(), KycError::InvalidInput);
    assert!(store.get_kyc_by_email("a@b.com".to_string()).unwrap().is_none());
}
