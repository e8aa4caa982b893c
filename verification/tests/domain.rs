use zero2prod::domain::{
    check_email, check_name, SubscriberEmail, SubscriberName, MAX_DOMAIN_LENGTH,
    MAX_LOCAL_LENGTH, MAX_NAME_LENGTH,
};

#[test]
fn ordinary_addresses_are_valid() {
    for valid in [
        "ursula_le_guin@gmail.com",
        "a@b",
        "first.last@sub.example.co.uk",
        "user+tag@example-host.org",
        "x!#$%&'*+/=?^_`{|}~-@example.com",
        "UPPER@EXAMPLE.COM",
        "1@2.3",
    ] {
        assert!(check_email(valid), "{}", valid);
    }
}

#[test]
fn an_address_needs_a_local_part_an_at_sign_and_a_domain() {
    for invalid in ["", "invalid", "ursuladomain.com", "@domain.com", "user@", "@"] {
        assert!(!check_email(invalid), "{}", invalid);
    }
}

#[test]
fn an_address_has_one_at_sign_only() {
    for invalid in ["a@b@c.com", "a@@b.com", "a@b.com@"] {
        assert!(!check_email(invalid), "{}", invalid);
    }
}

#[test]
fn white_space_and_foreign_characters_are_not_part_of_an_address() {
    for invalid in ["a b@c.com", "a@b c.com", " a@b.com", "a@b.com ", "a@b_c.com", "ü@b.com", "a@bü.com", "a\"b@c.com", "a(b)@c.com"] {
        assert!(!check_email(invalid), "{}", invalid);
    }
}

#[test]
fn the_labels_of_a_domain_begin_and_end_with_a_letter_or_a_digit() {
    for invalid in ["a@.b", "a@b.", "a@b..c", "a@-b.com", "a@b-.com", "a@b.-c", "a@b-.c", "a@-", "a@."] {
        assert!(!check_email(invalid), "{}", invalid);
    }
    for valid in ["a@b-c.com", "a@b--c.com", "a@b.c-d.e"] {
        assert!(check_email(valid), "{}", valid);
    }
}

#[test]
fn the_parts_of_an_address_are_bounded_in_length() {
    assert_eq!(MAX_LOCAL_LENGTH, 64);
    assert_eq!(MAX_DOMAIN_LENGTH, 255);
    let domain_255 = format!("{}.com", "d".repeat(251));
    assert!(check_email(&format!("{}@b.com", "l".repeat(64))));
    assert!(!check_email(&format!("{}@b.com", "l".repeat(65))));
    assert!(check_email(&format!("a@{}", domain_255)));
    assert!(!check_email(&format!("a@d{}", domain_255)));
    assert!(check_email(&format!("{}@{}", "l".repeat(64), domain_255)));
    assert!(!check_email(&"a".repeat(400)));
}

#[test]
fn a_parsed_address_keeps_its_text() {
    let email = SubscriberEmail::parse("ursula_le_guin@gmail.com".to_string()).expect("valid");
    assert_eq!(email.as_str(), "ursula_le_guin@gmail.com");
    assert_eq!(email.duplicate().as_str(), "ursula_le_guin@gmail.com");
}

#[test]
fn a_rejected_address_is_named_in_the_message() {
    let rejected = SubscriberEmail::parse("ursuladomain.com".to_string());
    assert_eq!(rejected.err(), Some("ursuladomain.com is not a valid subscriber email.".to_string()));
    let rejected = SubscriberEmail::parse(String::new());
    assert_eq!(rejected.err(), Some(" is not a valid subscriber email.".to_string()));
}

#[test]
fn a_256_character_long_name_is_valid() {
    assert_eq!(MAX_NAME_LENGTH, 256);
    assert!(check_name(&"ё".repeat(256)));
    assert!(SubscriberName::parse("a".repeat(256)).is_ok());
}

#[test]
fn a_name_longer_than_256_characters_is_rejected() {
    assert!(!check_name(&"a".repeat(257)));
}

#[test]
fn whitespace_only_names_are_rejected() {
    for invalid in [" ", "   ", "\t", "\n", "\u{a0}", "\u{2003}\u{3000}", " \r\n\t "] {
        assert!(!check_name(invalid), "{:?}", invalid);
    }
}

#[test]
fn empty_string_is_rejected() {
    assert!(!check_name(""));
    assert_eq!(
        SubscriberName::parse(String::new()).err(),
        Some(" is not a valid subscriber name.".to_string())
    );
}

#[test]
fn names_containing_an_invalid_character_are_rejected() {
    for forbidden in ['/', '(', ')', '"', '<', '>', '\\', '{', '}'] {
        let name = format!("Ursula{}Le Guin", forbidden);
        assert!(!check_name(&name), "{}", name);
        assert_eq!(
            SubscriberName::parse(name.clone()).err(),
            Some(format!("{} is not a valid subscriber name.", name))
        );
    }
}

#[test]
fn a_valid_name_is_parsed_successfully() {
    let name = SubscriberName::parse("Ursula Le Guin".to_string()).expect("valid");
    assert_eq!(name.as_str(), "Ursula Le Guin");
    assert!(check_name(" padded "));
    assert!(check_name("O'Neil-Smith & Co."));
}
