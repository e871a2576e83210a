//! The errors that the read path tells apart, and how a gRPC deadline is
//! recognised among them.
use crate::kvrpcpb::{KeyError, LockInfo};
use vstd::prelude::*;

verus! {

/// `tonic::Status`, carried through unopened.
#[verifier::external_type_specification]
#[verifier::external_body]
pub struct ExStatus(tonic::Status);

/// The number of the gRPC code `DeadlineExceeded`.
pub const DEADLINE_EXCEEDED_CODE: i32 = 4;

/// What `tonic::Status::code`, turned into its `i32` number, returns for
/// `status`.
pub uninterp spec fn status_code(status: tonic::Status) -> i32;

/// The gRPC code of `status`, as its number.
///
/// Trusted: calls `tonic::Status::code` and converts the `tonic::Code` with
/// `From<Code> for i32`; the result is `status_code(*status)`.  tonic numbers
/// its codes from 0 (`Ok`) to 16 (`Unauthenticated`).
#[verifier::external_body]
fn status_code_of(status: &tonic::Status) -> (r: i32)
    ensures
        r == status_code(*status),
        0 <= r <= 16,
{
    i32::from(status.code())
}

/// What `tonic::Status::message` returns for `status`, as characters.
pub uninterp spec fn status_message(status: tonic::Status) -> Seq<char>;

/// A status with the code `DeadlineExceeded` and the given message.
///
/// Trusted: calls `tonic::Status::deadline_exceeded`, which tonic writes as
/// `Status::new(Code::DeadlineExceeded, message)`; `code()` then returns that
/// code, number 4, and `message()` the message that `new` stored.
#[verifier::external_body]
fn deadline_exceeded_status(message: &str) -> (r: tonic::Status)
    ensures
        status_code(r) == DEADLINE_EXCEEDED_CODE,
        status_message(r) == message@,
{
    tonic::Status::deadline_exceeded(message.to_owned())
}

/// The errors of the read path.
#[derive(Debug)]
pub enum Error {
    /// A gRPC call failed with this status.
    GrpcAPI(tonic::Status),
    /// Any other failure, described by a message.
    InternalError { message: String },
    /// TiKV reported an error for a key.
    KeyError(Box<KeyError>),
    /// Taking pessimistic locks failed with `inner`, after the keys in
    /// `success_keys` were locked.
    PessimisticLockError { inner: Box<Error>, success_keys: Vec<Vec<u8>> },
    /// Several keys failed, each with its error.
    MultipleKeyErrors(Vec<Error>),
    /// The errors taken out of a batch of responses.
    ExtractedErrors(Vec<Error>),
    /// These locks have to be resolved before the request can go on.
    ResolveLockError(Vec<LockInfo>),
}

/// Whether `error` is a gRPC status with code `DeadlineExceeded`.
pub open spec fn is_timeout_error(error: Error) -> bool {
    error matches Error::GrpcAPI(status) && status_code(status) == DEADLINE_EXCEEDED_CODE
}

/// Whether a failed read ran out of its deadline, and so may be retried on
/// another peer: exactly the gRPC errors whose code is `DeadlineExceeded`.
pub fn is_read_timeout(error: &Error) -> (r: bool)
    ensures
        r == is_timeout_error(*error),
{
    match error {
        Error::GrpcAPI(status) => status_code_of(status) == DEADLINE_EXCEEDED_CODE,
        _ => false,
    }
}

/// Whether `e` is the error a dispatch reports when its deadline elapses: a
/// gRPC `DeadlineExceeded` status with the message "TiKV RPC deadline
/// elapsed".
pub open spec fn is_deadline_elapsed_error(e: Error) -> bool {
    &&& is_timeout_error(e)
    &&& e matches Error::GrpcAPI(status) && status_message(status) == "TiKV RPC deadline elapsed"@
}

/// The error of an elapsed deadline is a timeout, and so is recognised by
/// `is_read_timeout`; an error that is not a gRPC status never is.
pub proof fn lemma_deadline_elapsed_is_timeout(e: Error)
    ensures
        is_deadline_elapsed_error(e) ==> is_timeout_error(e),
        !(e is GrpcAPI) ==> !is_timeout_error(e),
{
}

/// The error a dispatch reports when its deadline elapses before the store
/// answers.
pub fn deadline_elapsed_error() -> (e: Error)
    ensures
        is_deadline_elapsed_error(e),
{
    Error::GrpcAPI(deadline_exceeded_status("TiKV RPC deadline elapsed"))
}

} // verus!
