//! The call channel.
//!
//! Every boundary-crossing operation reports through one uniform protocol: a
//! [`CallStatus`] written next to the returned buffer. A normal return is
//! serialized and reported as [`CallStatusCode::Success`]; a domain error is
//! serialized and reported as [`CallStatusCode::ExpectedError`]; an argument
//! that failed conversion, or an internal fault contained at the boundary,
//! is reported as [`CallStatusCode::UnexpectedError`] with a diagnostic
//! string; a cancelled asynchronous call is reported as
//! [`CallStatusCode::Cancelled`].
//!
//! [`settle_call`] does the reporting for an already-run operation; the task
//! bridge reuses it for the terminal `complete` step of asynchronous calls.

use vstd::prelude::*;
use vstd::string::StringExecFns;
use vstd::utf8::encode_utf8;

use crate::codec::encodable;
use crate::codec::encoding;
use crate::codec::lemma_lift_lower_round_trip;
use crate::codec::lower;
use crate::codec::spec_lift;
use crate::codec::value_model;
use crate::codec::ConversionError;
use crate::codec::Value;
use crate::codec::ValueModel;

verus! {

/// The outcome code of one boundary-crossing call.
#[derive(Debug, Clone, Copy, PartialEq, Eq, Structural)]
pub enum CallStatusCode {
    /// The operation returned normally; the return buffer holds its value.
    Success,
    /// The operation returned a typed failure; the error buffer holds it.
    ExpectedError,
    /// A contract violation, conversion failure or contained internal
    /// fault; the error buffer holds a diagnostic string.
    UnexpectedError,
    /// The asynchronous call was cancelled before completing.
    Cancelled,
}

/// The per-call outcome record, produced once per call and consumed by the
/// caller immediately.
#[derive(Debug)]
pub struct CallStatus {
    pub code: CallStatusCode,
    pub error_buf: Vec<u8>,
}

impl Default for CallStatus {
    /// A fresh status: success, with no error payload.
    fn default() -> (r: Self)
        ensures
            r.code == CallStatusCode::Success,
            r.error_buf@ == Seq::<u8>::empty(),
    {
        CallStatus { code: CallStatusCode::Success, error_buf: Vec::new() }
    }
}

/// What running one host-side operation came to, before it is reported
/// across the boundary.
pub enum CallOutcome {
    /// The operation produced a value.
    Success(Value),
    /// The operation deliberately returned a typed domain error.
    DomainError(Value),
    /// One argument could not be converted from its boundary form;
    /// `arg_name` identifies it and `cause` says why.
    ConversionFailed { arg_name: String, cause: String },
    /// An internal fault, contained at the boundary, with its diagnostic.
    Fault(String),
}

/// The diagnostic string reported for an argument that failed conversion:
/// it names the failing argument and carries the underlying cause.
pub open spec fn conversion_diagnostic(arg_name: Seq<char>, cause: Seq<char>) -> Seq<char> {
    "Failed to convert arg '"@ + arg_name + "':\n"@ + cause
}

/// Builds the diagnostic string for an argument that failed conversion.
pub fn render_conversion_diagnostic(arg_name: &String, cause: &String) -> (r: String)
    ensures
        r@ == conversion_diagnostic(arg_name@, cause@),
{
    let mut s = String::from_str("Failed to convert arg '");
    s.append(arg_name.as_str());
    s.append("':\n");
    s.append(cause.as_str());
    assert(s@ =~= conversion_diagnostic(arg_name@, cause@));
    s
}

/// Whether an outcome's payload fits the codec's length fields, so that it
/// can be reported across the boundary.
pub open spec fn outcome_encodable(o: CallOutcome) -> bool {
    match o {
        CallOutcome::Success(v) => encodable(value_model(v)),
        CallOutcome::DomainError(e) => encodable(value_model(e)),
        CallOutcome::ConversionFailed { arg_name, cause } => encode_utf8(
            conversion_diagnostic(arg_name@, cause@),
        ).len() <= u32::MAX,
        CallOutcome::Fault(msg) => encode_utf8(msg@).len() <= u32::MAX,
    }
}

/// What the status and the two buffers must say of a settled outcome: a
/// success is serialized into the returned buffer; a domain error is
/// serialized into the error buffer and reported as an expected error; a
/// conversion failure or a contained fault puts the diagnostic string,
/// serialized, into the error buffer and is reported as an unexpected
/// error.
pub open spec fn settled(
    outcome: CallOutcome,
    code: CallStatusCode,
    error_buf: Seq<u8>,
    ret: Seq<u8>,
) -> bool {
    match outcome {
        CallOutcome::Success(v) => code == CallStatusCode::Success && error_buf == Seq::<
            u8,
        >::empty() && ret == encoding(value_model(v)),
        CallOutcome::DomainError(e) => code == CallStatusCode::ExpectedError && error_buf
            == encoding(value_model(e)) && ret == Seq::<u8>::empty(),
        CallOutcome::ConversionFailed { arg_name, cause } => code
            == CallStatusCode::UnexpectedError && error_buf == encoding(
            ValueModel::Text(conversion_diagnostic(arg_name@, cause@)),
        ) && ret == Seq::<u8>::empty(),
        CallOutcome::Fault(msg) => code == CallStatusCode::UnexpectedError && error_buf
            == encoding(ValueModel::Text(msg@)) && ret == Seq::<u8>::empty(),
    }
}

/// Reports one finished operation across the boundary: writes the status and
/// returns the serialized return value, if any. See [`settled`] for the
/// exact protocol.
pub fn settle_call(outcome: CallOutcome, status: &mut CallStatus) -> (r: Vec<u8>)
    requires
        outcome_encodable(outcome),
    ensures
        settled(outcome, final(status).code, final(status).error_buf@, r@),
{
    match outcome {
        CallOutcome::Success(v) => {
            status.code = CallStatusCode::Success;
            status.error_buf = Vec::new();
            lower(&v)
        },
        CallOutcome::DomainError(e) => {
            status.code = CallStatusCode::ExpectedError;
            status.error_buf = lower(&e);
            Vec::new()
        },
        CallOutcome::ConversionFailed { arg_name, cause } => {
            let diagnostic = render_conversion_diagnostic(&arg_name, &cause);
            status.code = CallStatusCode::UnexpectedError;
            status.error_buf = lower(&Value::Text(diagnostic));
            Vec::new()
        },
        CallOutcome::Fault(msg) => {
            status.code = CallStatusCode::UnexpectedError;
            status.error_buf = lower(&Value::Text(msg));
            Vec::new()
        },
    }
}


/// A buffer the call channel serialized — the return buffer of a success,
/// or the error buffer of a domain error — decodes back to exactly the
/// value it was produced from.
pub proof fn lemma_settled_buffer_decodes(v: Value)
    requires
        encodable(value_model(v)),
    ensures
        spec_lift(encoding(value_model(v))) == Ok::<ValueModel, ConversionError>(value_model(v)),
{
    lemma_lift_lower_round_trip(value_model(v));
}

/// The conversion diagnostic names the failing argument and carries the
/// underlying cause, both verbatim: the argument's name follows the fixed
/// opening text, and the cause ends the string.
pub proof fn lemma_diagnostic_names_argument(arg_name: Seq<char>, cause: Seq<char>)
    ensures
        ({
            let d = conversion_diagnostic(arg_name, cause);
            &&& d.len() == 26 + arg_name.len() + cause.len()
            &&& d.subrange(23, 23 + arg_name.len() as int) == arg_name
            &&& d.skip(d.len() - cause.len()) == cause
        }),
{
    reveal_strlit("Failed to convert arg '");
    reveal_strlit("':\n");
    let d = conversion_diagnostic(arg_name, cause);
    assert(d.subrange(23, 23 + arg_name.len() as int) =~= arg_name);
    assert(d.skip(d.len() - cause.len()) =~= cause);
}

} // verus!
