use issue_delivery::issues::IssueRepository;
use issue_delivery::newsletter::{BodyData, Content};
use issue_delivery::password::{
    check_new_password, PasswordNotice, MAX_PASSWORD_LEN, MIN_PASSWORD_LEN,
};
use issue_delivery::task::{Issue, StorageError};
use issue_delivery::text::same_text;
use uuid::Uuid;

fn issue(title: &str) -> Issue {
    Issue {
        title: String::from(title),
        html_content: String::from("<p>body</p>"),
        text_content: String::from("body"),
    }
}

#[test]
fn published_issue_is_found_under_its_identifier() {
    let mut issues = IssueRepository::new();
    assert_eq!(issues.publish(Uuid::from_u128(1), issue("one")), Ok(()));
    assert_eq!(issues.publish(Uuid::from_u128(2), issue("two")), Ok(()));
    assert_eq!(issues.get(Uuid::from_u128(1)), Ok(issue("one")));
    assert_eq!(issues.get(Uuid::from_u128(2)), Ok(issue("two")));
}

#[test]
fn unknown_issue_is_not_found() {
    let mut issues = IssueRepository::new();
    assert_eq!(issues.get(Uuid::from_u128(1)), Err(StorageError::IssueNotFound));
    issues.publish(Uuid::from_u128(1), issue("one")).unwrap();
    assert_eq!(issues.get(Uuid::from_u128(3)), Err(StorageError::IssueNotFound));
}

#[test]
fn published_issue_is_never_replaced() {
    let mut issues = IssueRepository::new();
    issues.publish(Uuid::from_u128(1), issue("one")).unwrap();
    assert_eq!(
        issues.publish(Uuid::from_u128(1), issue("other")),
        Err(StorageError::IssueExists)
    );
    assert_eq!(issues.get(Uuid::from_u128(1)), Ok(issue("one")));
}

#[test]
fn submission_becomes_the_issue() {
    let body = BodyData {
        title: String::from("March news"),
        content: Content { html: String::from("<p>Hello</p>"), text: String::from("Hello") },
    };
    assert_eq!(
        body.into_issue(),
        Issue {
            title: String::from("March news"),
            html_content: String::from("<p>Hello</p>"),
            text_content: String::from("Hello"),
        }
    );
}

#[test]
fn texts_are_compared_by_their_characters() {
    assert!(same_text("", ""));
    assert!(same_text("abc", "abc"));
    assert!(same_text("grüß", "grüß"));
    assert!(!same_text("abc", "abd"));
    assert!(!same_text("abc", "ab"));
    assert!(!same_text("", "a"));
    assert!(!same_text("é", "e"));
}

#[test]
fn new_password_within_bounds_is_accepted() {
    assert_eq!(MIN_PASSWORD_LEN, 12);
    assert_eq!(MAX_PASSWORD_LEN, 128);
    assert_eq!(check_new_password("123456789012", "123456789012"), Ok(()));
    let longest = "p".repeat(128);
    assert_eq!(check_new_password(&longest, &longest), Ok(()));
}

#[test]
fn differing_repetition_is_reported_first() {
    assert_eq!(
        check_new_password("123456789012", "123456789013"),
        Err(PasswordNotice::Mismatch)
    );
    assert_eq!(check_new_password("short", "other"), Err(PasswordNotice::Mismatch));
    let too_long = "p".repeat(129);
    assert_eq!(check_new_password(&too_long, "p"), Err(PasswordNotice::Mismatch));
}

#[test]
fn short_password_is_rejected() {
    assert_eq!(check_new_password("12345678901", "12345678901"), Err(PasswordNotice::TooShort));
    assert_eq!(check_new_password("", ""), Err(PasswordNotice::TooShort));
}

#[test]
fn long_password_is_rejected() {
    let too_long = "p".repeat(129);
    assert_eq!(check_new_password(&too_long, &too_long), Err(PasswordNotice::TooLong));
}

#[test]
fn password_length_is_counted_in_bytes() {
    let six_letters = "üüüüüü";
    assert_eq!(six_letters.len(), 12);
    assert_eq!(check_new_password(six_letters, six_letters), Ok(()));
    let sixty_five = "ü".repeat(65);
    assert_eq!(check_new_password(&sixty_five, &sixty_five), Err(PasswordNotice::TooLong));
}

#[test]
fn notices_have_their_sentences() {
    assert_eq!(
        PasswordNotice::Mismatch.message(),
        "You entered two different new passwords - the field values must match."
    );
    assert_eq!(
        PasswordNotice::TooShort.message(),
        "Your password is too short - Passwords must be at least 12 characters."
    );
    assert_eq!(
        PasswordNotice::TooLong.message(),
        "Your password is too long - Passwords must be less than 128 characters."
    );
    assert_eq!(PasswordNotice::WrongCurrentPassword.message(), "The current password is incorrect.");
    assert_eq!(PasswordNotice::Changed.message(), "Your password has been changed.");
}
