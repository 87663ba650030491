//! A one-shot, deferred diagnostic message.
//!
//! Parse failures carry a human-readable reason whose formatting cost is only
//! paid if the text is actually inspected.  The reason starts as a pending
//! input; the first request for the text consumes the input, formats it, and
//! memoizes the resulting string.  Every later request returns the memoized
//! string unchanged, so the formatting runs at most once.

use vstd::prelude::*;

verus! {

/// Why a raw string failed to convert to an integer type.
#[derive(Clone, Copy, Debug, PartialEq, Eq, Structural)]
pub enum NumFailKind {
    /// The string was empty.
    Empty,
    /// The string was not an optional sign followed by decimal digits.
    InvalidDigit,
    /// The written number exceeds the largest value of the target type.
    TooLarge,
    /// The written number is below the smallest value of the target type.
    TooSmall,
}

/// The deferred input of a diagnostic: either a string returned verbatim, or
/// a numeric failure kind formatted on demand.
#[derive(Debug)]
pub enum ReasonInput {
    Verbatim(String),
    NumFail(NumFailKind),
}

/// The fixed message for each numeric failure kind.
pub open spec fn num_fail_text(k: NumFailKind) -> Seq<char> {
    match k {
        NumFailKind::Empty => "cannot parse integer from empty string"@,
        NumFailKind::InvalidDigit => "invalid digit found in string"@,
        NumFailKind::TooLarge => "number too large to fit in target type"@,
        NumFailKind::TooSmall => "number too small to fit in target type"@,
    }
}

/// The text a deferred input resolves to.
pub open spec fn reason_text(input: ReasonInput) -> Seq<char> {
    match input {
        ReasonInput::Verbatim(s) => s@,
        ReasonInput::NumFail(k) => num_fail_text(k),
    }
}

/// Formats a numeric failure kind.
fn num_fail_string(k: NumFailKind) -> (r: String)
    ensures
        r@ == num_fail_text(k),
{
    match k {
        NumFailKind::Empty => "cannot parse integer from empty string".to_owned(),
        NumFailKind::InvalidDigit => "invalid digit found in string".to_owned(),
        NumFailKind::TooLarge => "number too large to fit in target type".to_owned(),
        NumFailKind::TooSmall => "number too small to fit in target type".to_owned(),
    }
}

/// A deferred, at-most-once string computation backing a parse error's
/// human-readable explanation.
///
/// Exactly one of the pending input and the memoized text is present.  The
/// pending input is consumed by the first call to [`ErrorReason::as_str`];
/// from then on the memo alone answers every request, so the formatting runs
/// at most once and all readers observe the same string.
#[derive(Debug)]
pub struct ErrorReason {
    pending: Option<ReasonInput>,
    memo: Option<String>,
}

impl ErrorReason {
    /// Well-formed: exactly one of the pending input and the memo is present.
    pub closed spec fn wf(&self) -> bool {
        self.pending is Some <==> self.memo is None
    }

    /// Whether the message has already been computed.
    pub closed spec fn resolved(&self) -> bool {
        self.memo is Some
    }

    /// The text this reason resolves to, whether or not it has been computed
    /// yet.
    pub closed spec fn text(&self) -> Seq<char> {
        match self.memo {
            Some(s) => s@,
            None => reason_text(self.pending->0),
        }
    }

    /// Wraps a deferred input; nothing is formatted yet.
    pub fn new(producer: ReasonInput) -> (r: ErrorReason)
        ensures
            r.wf(),
            !r.resolved(),
            r.text() == reason_text(producer),
    {
        ErrorReason { pending: Some(producer), memo: None }
    }

    /// The diagnostic text.  The first call consumes the pending input and
    /// memoizes the formatted string; later calls return the memo unchanged.
    pub fn as_str(&mut self) -> (r: &str)
        requires
            old(self).wf(),
        ensures
            final(self).wf(),
            final(self).resolved(),
            final(self).text() == old(self).text(),
            r@ == old(self).text(),
            old(self).resolved() ==> *final(self) == *old(self),
    {
        if self.memo.is_none() {
            let input = self.pending.take();
            let text = match input.unwrap() {
                ReasonInput::Verbatim(s) => s,
                ReasonInput::NumFail(k) => num_fail_string(k),
            };
            self.memo = Some(text);
        }
        self.memo.as_ref().unwrap().as_str()
    }
}

} // verus!
