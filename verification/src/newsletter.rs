//! What an author submits to publish an issue.

use crate::task::{Issue, IssueView};
use vstd::prelude::*;

verus! {

/// The two renderings of an issue's body.
#[derive(Debug, PartialEq, Eq)]
pub struct Content {
    pub html: String,
    pub text: String,
}

/// A submitted issue: its title and its body.
#[derive(Debug, PartialEq, Eq)]
pub struct BodyData {
    pub title: String,
    pub content: Content,
}

impl BodyData {
    /// The issue that is stored and sent for this submission.
    pub fn into_issue(self) -> (issue: Issue)
        ensures
            issue@ == (IssueView {
                title: self.title@,
                html_content: self.content.html@,
                text_content: self.content.text@,
            }),
    {
        Issue {
            title: self.title,
            html_content: self.content.html,
            text_content: self.content.text,
        }
    }
}

} // verus!
