//! HTTP status codes: their range, their three categories and their text.

use vstd::prelude::*;

verus! {

/// The text that the `Display` impl of `reqwest::StatusCode` gives for a
/// code between 100 and 999: the number, a space and the canonical reason
/// phrase, for example `200 OK`.
pub uninterp spec fn status_display(code: u16) -> Seq<char>;

/// Calls `reqwest::StatusCode::from_u16` and formats the value it returns
/// with `Display`.
///
/// Trusted: `from_u16` accepts exactly the codes from 100 to 999, and the
/// formatted text depends on the code alone.
#[verifier::external_body]
fn display_status(code: u16) -> (text: Option<String>)
    ensures
        text is Some <==> 100 <= code <= 999,
        text matches Some(t) ==> t@ == status_display(code),
{
    match reqwest::StatusCode::from_u16(code) {
        Ok(status) => Some(status.to_string()),
        Err(_) => None,
    }
}

/// The three ways in which the queue treats an answer.
#[derive(Clone, Copy, Debug, PartialEq, Eq, Structural)]
pub enum Category {
    /// The page was accepted: status 200.
    Success,
    /// The service asks the caller to slow down: status 429.
    RateLimited,
    /// Any other status: the page is given up.
    Failure,
}

/// The category of a status code.
pub open spec fn category_of(code: u16) -> Category {
    if code == 200 {
        Category::Success
    } else if code == 429 {
        Category::RateLimited
    } else {
        Category::Failure
    }
}

/// An HTTP status code, always between 100 and 999.
#[derive(Clone, Copy, Debug, PartialEq, Eq)]
pub struct Status {
    code: u16,
}

impl View for Status {
    type V = u16;

    closed spec fn view(&self) -> u16 {
        self.code
    }
}

impl Status {
    #[verifier::type_invariant]
    spec fn in_range(self) -> bool {
        100 <= self.code <= 999
    }

    /// The status with the given code, where the code has three digits.
    pub fn new(code: u16) -> (status: Option<Status>)
        ensures
            status is Some <==> 100 <= code <= 999,
            status matches Some(s) ==> s@ == code,
    {
        if 100 <= code && code <= 999 {
            Some(Status { code })
        } else {
            None
        }
    }

    /// The numeric code.
    pub fn code(&self) -> (code: u16)
        ensures
            code == self@,
            100 <= code <= 999,
    {
        proof {
            use_type_invariant(self);
        }
        self.code
    }

    /// How the queue treats an answer with this status.
    pub fn category(&self) -> (category: Category)
        ensures
            category == category_of(self@),
    {
        if self.code == 200 {
            Category::Success
        } else if self.code == 429 {
            Category::RateLimited
        } else {
            Category::Failure
        }
    }

    /// The status as it appears in a log line: `200 OK`.
    pub fn text(&self) -> (text: String)
        ensures
            text@ == status_display(self@),
    {
        proof {
            use_type_invariant(self);
        }
        display_status(self.code).unwrap()
    }
}

} // verus!
