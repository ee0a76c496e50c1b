use mailstore::address::{grab_email, parse_bare};
use mailstore::email::Email;

#[test]
fn test_grab_email_to() {
    let email = Some("to:<user@example.com>");
    let parsed_email = grab_email(email);
    assert!(parsed_email.is_some());
    let userhost = parsed_email.unwrap();
    assert_eq!(userhost.local_part, "user");
    assert_eq!(userhost.domain_part, "example.com");
}

#[test]
fn test_grab_email_from() {
    let email = Some("from:<user1@example.com>");
    let parsed_email = grab_email(email);
    assert!(parsed_email.is_some());
    let userhost = parsed_email.unwrap();
    assert_eq!(userhost.local_part, "user1");
    assert_eq!(userhost.domain_part, "example.com");
}

#[test]
fn test_grab_email_raw_email_failure() {
    let email = Some("user1@example.com");
    let parsed_email = grab_email(email);
    assert!(parsed_email.is_none());
}

#[test]
fn grab_short_from() {
    let e = grab_email(Some("from:<a@b>")).unwrap();
    assert_eq!(e.local_part, "a");
    assert_eq!(e.domain_part, "b");
}

#[test]
fn grab_none() {
    assert!(grab_email(None).is_none());
}

#[test]
fn grab_keyword_any_case_and_no_brackets() {
    let e = grab_email(Some("FrOm:x@y.org")).unwrap();
    assert_eq!(e.local_part, "x");
    assert_eq!(e.domain_part, "y.org");
    let e = grab_email(Some("TO:<p@q>")).unwrap();
    assert_eq!(e.local_part, "p");
}

#[test]
fn grab_strips_one_bracket_only() {
    let e = grab_email(Some("to:<<a@b>>")).unwrap();
    assert_eq!(e.local_part, "<a");
    assert_eq!(e.domain_part, "b>");
}

#[test]
fn grab_rejects_other_keyword_and_missing_parts() {
    assert!(grab_email(Some("rcpt:<a@b>")).is_none());
    assert!(grab_email(Some("to")).is_none());
    assert!(grab_email(Some("to:<ab>")).is_none());
}

#[test]
fn grab_keeps_empty_parts() {
    let e = grab_email(Some("to:<@>")).unwrap();
    assert_eq!(e.local_part, "");
    assert_eq!(e.domain_part, "");
}

#[test]
fn grab_splits_at_first_at_sign() {
    let e = grab_email(Some("to:a@b@c")).unwrap();
    assert_eq!(e.local_part, "a");
    assert_eq!(e.domain_part, "b@c");
}

#[test]
fn bare_address_parses() {
    let e = parse_bare("me@host").unwrap();
    assert_eq!(e.local_part, "me");
    assert_eq!(e.domain_part, "host");
    assert!(parse_bare("nohost").is_none());
}

#[test]
fn email_text_form() {
    let e = Email::new("user".to_string(), "example.com".to_string());
    assert_eq!(e.to_string(), "user@example.com");
    let f = Email::new("user".to_string(), "example.com".to_string());
    assert!(e.same(&f));
    let g = Email::new("user".to_string(), "example.org".to_string());
    assert!(!e.same(&g));
}
