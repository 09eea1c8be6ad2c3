use newsletter::domain::admin_password::AdminPassword;
use newsletter::domain::subscriber_email::SubscriberEmail;

#[test]
fn empty_password_is_rejected() {
    let password = "".to_string();
    assert!(AdminPassword::parse(password).is_err());
}

#[test]
fn space_only_password_is_rejected() {
    let password = " ".repeat(20);
    assert!(AdminPassword::parse(password).is_err());
}

#[test]
fn too_short_password_is_rejected() {
    let password = "a".repeat(11);
    assert!(AdminPassword::parse(password).is_err());
}

#[test]
fn a_128_grapheme_long_password_is_valid() {
    let password = "a".repeat(128);
    assert!(AdminPassword::parse(password).is_ok());
}

#[test]
fn a_password_longer_than_128_grapheme_is_rejected() {
    let password = "a".repeat(129);
    assert!(AdminPassword::parse(password).is_err());
}

#[test]
fn whitespace_only_passwords_are_rejected() {
    let password = " ".to_string();
    assert!(AdminPassword::parse(password).is_err());
}

#[test]
fn empty_string_is_rejected() {
    let email = "".to_string();
    assert!(SubscriberEmail::parse(email).is_err());
}

#[test]
fn email_missing_at_symbol_is_rejected() {
    let email = "ursuladomain.com".to_string();
    assert!(SubscriberEmail::parse(email).is_err());
}

#[test]
fn email_missing_subject_is_rejected() {
    let email = "@domain.com".to_string();
    assert!(SubscriberEmail::parse(email).is_err());
}

#[test]
fn a_valid_email_is_accepted_and_kept_verbatim() {
    let parsed = SubscriberEmail::parse("ursula_le_guin@gmail.com".to_string()).unwrap();
    assert_eq!(parsed.as_str(), "ursula_le_guin@gmail.com");
}

#[test]
fn password_error_messages_name_the_reason() {
    assert_eq!(
        AdminPassword::parse("a".repeat(129)).unwrap_err(),
        "Invalid password, too long"
    );
    assert_eq!(
        AdminPassword::parse("a".repeat(11)).unwrap_err(),
        "Invalid password, too short"
    );
    assert_eq!(
        AdminPassword::parse(" ".repeat(20)).unwrap_err(),
        "Invalid password, can't be empty or only whitespaces"
    );
}

#[test]
fn rejected_email_message_contains_the_address() {
    assert_eq!(
        SubscriberEmail::parse("not-an-email".to_string()).unwrap_err(),
        "not-an-email is not a valid subscriber email"
    );
}
