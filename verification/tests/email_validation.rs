use kyc_service::email::is_valid_email;

#[test]
fn accepts_plain_addresses() {
    assert!(is_valid_email("exemplo@dominio.com"));
    assert!(is_valid_email("a@b.com"));
    assert!(is_valid_email("user.name+tag@sub.domain.co"));
    assert!(is_valid_email("A_b%c-d@x-y.z.ab"));
    assert!(is_valid_email("user99@host9.org"));
}

#[test]
fn rejects_empty_and_plain_words() {
    assert!(!is_valid_email(""));
    assert!(!is_valid_email("not-an-email"));
    assert!(!is_valid_email("   "));
}

#[test]
fn rejects_missing_parts() {
    assert!(!is_valid_email("@b.com"));
    assert!(!is_valid_email("a@.com"));
    assert!(!is_valid_email("a@b"));
    assert!(!is_valid_email("a@b."));
    assert!(!is_valid_email("a@b.com."));
}

#[test]
fn rejects_short_or_nonalphabetic_top_level_label() {
    assert!(!is_valid_email("a@b.c"));
    assert!(!is_valid_email("a@b.c0m"));
    assert!(is_valid_email("a@b.co"));
}

#[test]
fn rejects_bad_characters() {
    assert!(!is_valid_email("a b@c.com"));
    assert!(!is_valid_email("a@@b.com"));
    assert!(!is_valid_email("a@b@c.com"));
    assert!(!is_valid_email("a!\u{e7}@b.com"));
}

#[test]
fn accepts_dots_inside_domain() {
    assert!(is_valid_email("x@a.b.c.de"));
}
