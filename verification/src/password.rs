//! The rules for a new administrator password, and what the administrator is
//! told about a change.

use crate::text::same_text;
use vstd::prelude::*;
use vstd::string::*;
use vstd::utf8::encode_utf8;

verus! {

/// The fewest bytes a new password may have.
pub const MIN_PASSWORD_LEN: usize = 12;

/// The most bytes a new password may have.
pub const MAX_PASSWORD_LEN: usize = 128;

/// What the administrator is told after asking for a new password.
#[derive(Clone, Copy, Debug, PartialEq, Eq, Structural)]
pub enum PasswordNotice {
    /// The new password and its repetition differ.
    Mismatch,
    /// The new password is shorter than allowed.
    TooShort,
    /// The new password is longer than allowed.
    TooLong,
    /// The current password was not the right one.
    WrongCurrentPassword,
    /// The password was changed.
    Changed,
}

/// The verdict on a new password and its repetition: they must be the same
/// text, and its length in bytes must lie within the two bounds. A difference
/// is reported before a wrong length.
pub open spec fn verdict(new_password: Seq<char>, repetition: Seq<char>) -> Result<
    (),
    PasswordNotice,
> {
    let len = encode_utf8(new_password).len();
    if new_password != repetition {
        Err(PasswordNotice::Mismatch)
    } else if len < MIN_PASSWORD_LEN {
        Err(PasswordNotice::TooShort)
    } else if len > MAX_PASSWORD_LEN {
        Err(PasswordNotice::TooLong)
    } else {
        Ok(())
    }
}

/// Checks a new password and its repetition against the rules.
pub fn check_new_password(new_password: &str, repetition: &str) -> (checked: Result<
    (),
    PasswordNotice,
>)
    ensures
        checked == verdict(new_password@, repetition@),
{
    let len = new_password.as_bytes().len();
    if !same_text(new_password, repetition) {
        Err(PasswordNotice::Mismatch)
    } else if len < MIN_PASSWORD_LEN {
        Err(PasswordNotice::TooShort)
    } else if len > MAX_PASSWORD_LEN {
        Err(PasswordNotice::TooLong)
    } else {
        Ok(())
    }
}

impl PasswordNotice {
    /// The sentence shown for the notice.
    pub open spec fn text(self) -> Seq<char> {
        match self {
            PasswordNotice::Mismatch => "You entered two different new passwords - the field values must match."@,
            PasswordNotice::TooShort => "Your password is too short - Passwords must be at least 12 characters."@,
            PasswordNotice::TooLong => "Your password is too long - Passwords must be less than 128 characters."@,
            PasswordNotice::WrongCurrentPassword => "The current password is incorrect."@,
            PasswordNotice::Changed => "Your password has been changed."@,
        }
    }

    /// The sentence shown for the notice.
    pub fn message(self) -> (message: &'static str)
        ensures
            message@ == self.text(),
    {
        match self {
            PasswordNotice::Mismatch => "You entered two different new passwords - the field values must match.",
            PasswordNotice::TooShort => "Your password is too short - Passwords must be at least 12 characters.",
            PasswordNotice::TooLong => "Your password is too long - Passwords must be less than 128 characters.",
            PasswordNotice::WrongCurrentPassword => "The current password is incorrect.",
            PasswordNotice::Changed => "Your password has been changed.",
        }
    }
}

} // verus!
