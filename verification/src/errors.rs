//! Error values of the library.

use vstd::prelude::*;
use vstd::string::*;

use crate::decimal::{decimal, decimal_string};

verus! {

/// What `Display` shows of an error: the text, a full stop, then
/// " Cause: " and the cause when the cause is not empty.
pub open spec fn error_display(text: Seq<char>, cause: Seq<char>) -> Seq<char> {
    if cause.len() == 0 {
        text + "."@
    } else {
        text + "."@ + " Cause: "@ + cause
    }
}

/// An error of the library: a text and the cause that led to it.
#[derive(Debug)]
pub struct RaftError {
    text: String,
    cause: String,
}

impl RaftError {
    /// The text of the error.
    pub closed spec fn text_view(&self) -> Seq<char> {
        self.text@
    }

    /// The cause of the error.
    pub closed spec fn cause_view(&self) -> Seq<char> {
        self.cause@
    }

    /// Creates an error from its text and cause.
    pub fn new(text: String, cause: String) -> (e: RaftError)
        ensures
            e.text_view() == text@,
            e.cause_view() == cause@,
    {
        RaftError { text, cause }
    }

    /// Returns the text of the error.
    pub fn text(&self) -> (t: &String)
        ensures
            t@ == self.text_view(),
    {
        &self.text
    }

    /// Returns the cause of the error.
    pub fn cause(&self) -> (c: &String)
        ensures
            c@ == self.cause_view(),
    {
        &self.cause
    }

    /// The text that `Display` shows of the error.
    pub fn to_display_string(&self) -> (s: String)
        ensures
            s@ == error_display(self.text_view(), self.cause_view()),
    {
        let mut s = self.text.clone();
        s.append(".");
        if !self.cause.as_str().is_empty() {
            s.append(" Cause: ");
        }
        s.append(self.cause.as_str());
        proof {
            if self.cause@.len() == 0 {
                assert(s@ =~= self.text@ + "."@);
            }
        }
        s
    }
}

/// Returns an error with the given text and cause.
pub fn new_err<T>(text: String, cause: String) -> (r: Result<T, RaftError>)
    ensures
        r is Err,
        r->Err_0.text_view() == text@,
        r->Err_0.cause_view() == cause@,
{
    Err(RaftError::new(text, cause))
}

/// The numbered list of errors: for each, its number (from 1), ") " and
/// what `Display` shows of it.
pub open spec fn numbered_errors(causes: Seq<RaftError>) -> Seq<char>
    decreases causes.len(),
{
    if causes.len() == 0 {
        Seq::empty()
    } else {
        numbered_errors(causes.drop_last()) + decimal(causes.len()) + ") "@ + error_display(
            causes.last().text_view(),
            causes.last().cause_view(),
        )
    }
}

/// The cause of an error made of several: "Errors: " and the numbered list,
/// or nothing when there are none.
pub open spec fn multiple_cause(causes: Seq<RaftError>) -> Seq<char> {
    if causes.len() == 0 {
        Seq::empty()
    } else {
        "Errors: "@ + numbered_errors(causes)
    }
}

/// Returns an error with the given text whose cause lists the given errors.
pub fn new_multiple_err<T>(text: String, causes: Vec<RaftError>) -> (r: Result<T, RaftError>)
    ensures
        r is Err,
        r->Err_0.text_view() == text@,
        r->Err_0.cause_view() == multiple_cause(causes@),
{
    let mut error_string = String::new();
    if causes.len() > 0 {
        error_string.append("Errors: ");
    }
    let ghost prefix = error_string@;
    let mut i: usize = 0;
    while i < causes.len()
        invariant
            i <= causes.len(),
            prefix == (if causes@.len() == 0 { Seq::<char>::empty() } else { "Errors: "@ }),
            error_string@ == prefix + numbered_errors(causes@.take(i as int)),
        decreases causes.len() - i,
    {
        let err = &causes[i];
        let number = decimal_string((i + 1) as u64);
        error_string.append(number.as_str());
        error_string.append(") ");
        let shown = err.to_display_string();
        error_string.append(shown.as_str());
        proof {
            let t = causes@.take(i as int + 1);
            assert(t.drop_last() =~= causes@.take(i as int));
            assert(t.last() == causes@[i as int]);
            assert(error_string@ =~= prefix + numbered_errors(t));
        }
        i = i + 1;
    }
    proof {
        assert(causes@.take(causes@.len() as int) =~= causes@);
        if causes@.len() == 0 {
            assert(error_string@ =~= Seq::<char>::empty());
        }
    }
    Err(RaftError { text, cause: error_string })
}

} // verus!
