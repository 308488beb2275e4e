//! Errors of the node modules: a text and, possibly, the error that caused
//! it (held as the text that `Debug` shows of it).

use vstd::prelude::*;
use vstd::string::*;

verus! {

/// An error of the node modules.
#[derive(Debug)]
pub struct RuftError {
    text: String,
    cause: Option<String>,
}

impl RuftError {
    /// The text of the error.
    pub closed spec fn text_view(&self) -> Seq<char> {
        self.text@
    }

    /// The causing error as `Debug` shows it, if any.
    pub closed spec fn cause_view(&self) -> Option<Seq<char>> {
        match self.cause {
            Some(c) => Some(c@),
            None => None,
        }
    }

    /// The text of the error.
    pub fn text(&self) -> (t: &String)
        ensures
            t@ == self.text_view(),
    {
        &self.text
    }

    /// The causing error as `Debug` shows it, if any.
    pub fn cause(&self) -> (c: &Option<String>)
        ensures
            match *c {
                Some(m) => self.cause_view() == Some(m@),
                None => self.cause_view() is None,
            },
    {
        &self.cause
    }

    /// The error as it is displayed: the text, ". Cause " and the optional
    /// cause as `Debug` shows it (see `ruft_error_display`).
    pub fn to_display_string(&self) -> (s: String)
        ensures
            s@ == ruft_error_display(self.text_view(), self.cause_view()),
    {
        let mut s = self.text.clone();
        s.append(". Cause ");
        match &self.cause {
            Some(c) => {
                s.append("Some(");
                s.append(c.as_str());
                s.append(")");
            },
            None => {
                s.append("None");
            },
        }
        s
    }
}

/// The displayed text of an error: the text, ". Cause ", then "None" without
/// a cause, or "Some(" the cause ")" with one.
pub open spec fn ruft_error_display(text: Seq<char>, cause: Option<Seq<char>>) -> Seq<char> {
    text + ". Cause "@ + match cause {
        Some(c) => "Some("@ + c + ")"@,
        None => "None"@,
    }
}

/// Returns an error with the given text and cause.
pub fn new_err<T>(text: String, cause: Option<String>) -> (r: Result<T, RuftError>)
    ensures
        r is Err,
        r->Err_0.text_view() == text@,
        match cause {
            Some(c) => r->Err_0.cause_view() == Some(c@),
            None => r->Err_0.cause_view() is None,
        },
{
    Err(RuftError { text, cause })
}

} // verus!
