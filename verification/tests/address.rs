use issue_delivery::email::{is_well_formed, MAX_LABEL_LEN};

#[test]
fn plain_addresses_are_well_formed() {
    assert!(is_well_formed("user@example.com"));
    assert!(is_well_formed("a@b"));
    assert!(is_well_formed("first.last@sub.example.org"));
    assert!(is_well_formed("x@1.2.3.4"));
    assert!(is_well_formed("USER+tag@Example-Site.COM"));
}

#[test]
fn address_without_at_sign_is_malformed() {
    assert!(!is_well_formed("not-an-email"));
    assert!(!is_well_formed("userexample.com"));
    assert!(!is_well_formed(""));
}

#[test]
fn address_needs_both_parts() {
    assert!(!is_well_formed("@example.com"));
    assert!(!is_well_formed("user@"));
    assert!(!is_well_formed("@"));
}

#[test]
fn address_has_one_at_sign() {
    assert!(!is_well_formed("a@b@c"));
    assert!(!is_well_formed("a@@b"));
}

#[test]
fn local_part_takes_address_text_and_dots() {
    assert!(is_well_formed("!#$%&'*+-/=?^_`{|}~@example.com"));
    assert!(is_well_formed(".a..b.@example.com"));
    assert!(!is_well_formed("a b@example.com"));
    assert!(!is_well_formed("a\"b@example.com"));
    assert!(!is_well_formed("a(b)@example.com"));
    assert!(!is_well_formed("a,b@example.com"));
    assert!(!is_well_formed("a:b@example.com"));
    assert!(!is_well_formed("a;b@example.com"));
    assert!(!is_well_formed("a<b>@example.com"));
    assert!(!is_well_formed("a[b]@example.com"));
    assert!(!is_well_formed("a\\b@example.com"));
}

#[test]
fn domain_labels_begin_and_end_with_a_letter_or_digit() {
    assert!(is_well_formed("a@x-y.z"));
    assert!(is_well_formed("a@x--y"));
    assert!(!is_well_formed("a@-x.z"));
    assert!(!is_well_formed("a@x-.z"));
    assert!(!is_well_formed("a@x.-z"));
    assert!(!is_well_formed("a@x.z-"));
    assert!(!is_well_formed("a@-"));
}

#[test]
fn domain_labels_are_not_empty() {
    assert!(!is_well_formed("a@.example.com"));
    assert!(!is_well_formed("a@example.com."));
    assert!(!is_well_formed("a@example..com"));
    assert!(!is_well_formed("a@."));
}

#[test]
fn domain_takes_letters_digits_hyphens_and_dots() {
    assert!(!is_well_formed("a@exa_mple.com"));
    assert!(!is_well_formed("a@exa mple.com"));
    assert!(!is_well_formed("a@example.com "));
    assert!(!is_well_formed("a@[127.0.0.1]"));
    assert!(!is_well_formed("a@exam!ple.com"));
}

#[test]
fn domain_label_has_a_longest_length() {
    assert_eq!(MAX_LABEL_LEN, 63);
    let longest = "x".repeat(63);
    let too_long = "x".repeat(64);
    assert!(is_well_formed(&format!("a@{}", longest)));
    assert!(is_well_formed(&format!("a@{}.{}", longest, longest)));
    assert!(is_well_formed(&format!("a@b.{}.c", longest)));
    assert!(!is_well_formed(&format!("a@{}", too_long)));
    assert!(!is_well_formed(&format!("a@b.{}", too_long)));
    assert!(!is_well_formed(&format!("a@{}.b", too_long)));
    assert!(is_well_formed(&format!("{}@b", "x".repeat(200))));
}

#[test]
fn address_beyond_ascii_is_malformed() {
    assert!(!is_well_formed("üser@example.com"));
    assert!(!is_well_formed("user@exämple.com"));
    assert!(!is_well_formed("user@example.com\u{80}"));
}
