use vstd::prelude::*;
use vstd::string::StringExecFns;

verus! {

/// The four ways a call can fail.
#[derive(PartialEq, Eq, Structural, Clone, Copy, Debug)]
pub enum ErrorKind {
    /// The address is absent, or holds a record of another type.
    NotFound,
    /// Admission control refused a write.
    ValidationRejected,
    /// The store or the link index refused an operation.
    SubstrateFailure,
    /// The caller's input failed a local check before anything was written.
    InvariantViolation,
}

/// An error with its kind and a message that carries a breadcrumb of the
/// steps it passed through, outermost first.
#[derive(Debug)]
pub struct ZomeError {
    pub kind: ErrorKind,
    pub message: String,
}

impl ZomeError {
    pub fn new(kind: ErrorKind, message: &str) -> (r: ZomeError)
        ensures
            r.kind == kind,
            r.message@ == message@,
    {
        ZomeError { kind, message: String::from_str(message) }
    }
}

/// The error that results from prefixing `tag` to the message of `e`.
pub open spec fn tagged(e: ZomeError, tag: Seq<char>) -> (ErrorKind, Seq<char>) {
    (e.kind, tag + e.message@)
}

/// Prepends `tag` to the message of `error`, keeping its kind.
pub fn tag_error<T>(error: ZomeError, tag: &str) -> (r: Result<T, ZomeError>)
    ensures
        r is Err,
        (r->Err_0.kind, r->Err_0.message@) == tagged(error, tag@),
{
    let mut message = String::from_str(tag);
    message.append(error.message.as_str());
    Err(ZomeError { kind: error.kind, message })
}

/// Prepends `tag` to the message of an error in `result`; a success passes
/// through unchanged.
pub fn t<T>(tag: &str, result: Result<T, ZomeError>) -> (r: Result<T, ZomeError>)
    ensures
        result is Ok ==> r == result,
        result is Err ==> r is Err && (r->Err_0.kind, r->Err_0.message@) == tagged(
            result->Err_0,
            tag@,
        ),
{
    match result {
        Ok(val) => Ok(val),
        Err(error) => tag_error(error, tag),
    }
}

} // verus!
