//! The closed set of failure outcomes produced by lookup and parsing.

use crate::error_reason::ErrorReason;
use crate::error_reason::ReasonInput;
use crate::error_reason::reason_text;
use vstd::prelude::*;

verus! {

/// A failure outcome of reading a variable.
///
/// All parse rules return errors by value; nothing is thrown.  The deferred
/// reason text of a `ParseError` is only materialized when explicitly asked
/// for.
#[derive(Debug)]
pub enum EnvarError {
    /// The raw string is present but cannot be converted to the target type.
    ParseError {
        /// The variable the string came from.
        varname: String,
        /// The name of the target type.
        typename: &'static str,
        /// The offending raw value.
        value: String,
        /// A deferred human-readable explanation.
        reason: ErrorReason,
    },
    /// The variable is absent and no default value is available.
    NotSet(String),
    /// Internal signal: treat the variable as absent, and let the caller's
    /// default policy decide.  [`crate::Envar::value`] converts it into
    /// either a default value or `NotSet` before returning.
    TryDefault(String),
}

impl EnvarError {
    /// A parse error's deferred reason is well-formed and not yet computed.
    pub open spec fn wf(&self) -> bool {
        match self {
            EnvarError::ParseError { reason, .. } => reason.wf(),
            EnvarError::NotSet(_) => true,
            EnvarError::TryDefault(_) => true,
        }
    }
}

/// Builds a `ParseError` whose reason is still pending.
pub fn parse_error(varname: &str, typename: &'static str, value: &str, input: ReasonInput) -> (e:
    EnvarError)
    ensures
        e matches EnvarError::ParseError { varname: vn, typename: tn, value: off, reason } && vn@
            == varname@ && tn == typename && off@ == value@ && reason.wf() && !reason.resolved()
            && reason.text() == reason_text(input),
{
    EnvarError::ParseError {
        varname: varname.to_owned(),
        typename,
        value: value.to_owned(),
        reason: ErrorReason::new(input),
    }
}

} // verus!
