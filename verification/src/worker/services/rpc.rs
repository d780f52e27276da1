//! RPC errors: a status code and a message.

use vstd::prelude::*;

verus! {

/// The status codes that handlers answer with.
#[derive(Copy, Clone, Debug, PartialEq, Eq, Structural)]
pub enum RpcCode {
    InvalidArgument,
    NotFound,
    AlreadyExists,
    PermissionDenied,
    FailedPrecondition,
    Unimplemented,
    Internal,
    Unavailable,
    Unauthenticated,
}

/// A refused or failed request.
#[derive(Debug, PartialEq, Eq)]
pub struct RpcError {
    pub code: RpcCode,
    pub message: String,
}

/// [`RpcError`] over characters.
#[verifier::ext_equal]
pub struct RpcErrorView {
    pub code: RpcCode,
    pub message: Seq<char>,
}

impl View for RpcError {
    type V = RpcErrorView;

    open spec fn view(&self) -> RpcErrorView {
        RpcErrorView { code: self.code, message: self.message@ }
    }
}

pub open spec fn rpc_error(code: RpcCode, message: Seq<char>) -> RpcErrorView {
    RpcErrorView { code, message }
}

impl RpcError {
    pub fn new(code: RpcCode, message: &str) -> (r: RpcError)
        ensures
            r@ == rpc_error(code, message@),
    {
        RpcError { code, message: message.to_owned() }
    }
}

/// Whether a result is a success exactly where no error is due, and the error
/// that is due otherwise.
pub open spec fn fails_as<T>(r: Result<T, RpcError>, due: Option<RpcErrorView>) -> bool {
    match due {
        None => r is Ok,
        Some(e) => r matches Err(got) && got@ == e,
    }
}

} // verus!
