//! Status codes and error values reported back to the host runtime.

use vstd::prelude::*;
use crate::sys::{einval, erange, spec_einval, spec_enoent, spec_erange};

verus! {

/// The overall outcome of a lookup, as the host runtime numbers it.
#[derive(Clone, Copy, Debug, PartialEq, Eq, Structural)]
pub enum NssStatus {
    /// The scratch buffer was too small, or a transient failure: try again.
    TryAgain,
    /// The service is not available.
    Unavailable,
    /// The lookup found nothing.
    NotFound,
    /// The lookup succeeded and the output record is filled in.
    Success,
}

impl NssStatus {
    pub open spec fn spec_code(self) -> i32 {
        match self {
            NssStatus::TryAgain => -2i32,
            NssStatus::Unavailable => -1i32,
            NssStatus::NotFound => 0,
            NssStatus::Success => 1,
        }
    }

    /// The numeric status returned to the host runtime.
    pub fn code(&self) -> (r: i32)
        ensures
            r == self.spec_code(),
    {
        match self {
            NssStatus::TryAgain => -2i32,
            NssStatus::Unavailable => -1i32,
            NssStatus::NotFound => 0,
            NssStatus::Success => 1,
        }
    }
}

/// Resolver-specific failure reasons, reported through the secondary channel.
#[derive(Clone, Copy, Debug, PartialEq, Eq, Structural)]
pub enum HostError {
    /// Authoritative answer: host not found.
    HostNotFound,
    /// Non-authoritative not found, or server failure.
    TryAgain,
    /// Non-recoverable failure.
    NoRecovery,
    /// Valid name, no data for the requested type.
    NoData,
}

impl HostError {
    pub open spec fn spec_code(self) -> i32 {
        match self {
            HostError::HostNotFound => 1,
            HostError::TryAgain => 2,
            HostError::NoRecovery => 3,
            HostError::NoData => 4,
        }
    }

    /// The numeric secondary code of this reason.
    pub fn code(&self) -> (r: i32)
        ensures
            r == self.spec_code(),
    {
        match self {
            HostError::HostNotFound => 1,
            HostError::TryAgain => 2,
            HostError::NoRecovery => 3,
            HostError::NoData => 4,
        }
    }
}

/// Secondary code meaning "see the primary (errno) channel".
pub const NETDB_INTERNAL: i32 = -1;

/// Secondary code meaning "no problem"; never carried by an error.
pub const NETDB_SUCCESS: i32 = 0;

/// The three parts of an error value, as plain data.
#[derive(Clone, Copy, Debug, PartialEq, Eq, Structural)]
pub struct ErrorParts {
    pub status: NssStatus,
    pub errno: i32,
    pub h_errno: i32,
}

impl ErrorParts {
    /// What every error value satisfies: it never claims success, never
    /// carries the "no problem" secondary code, and when it defers to the
    /// primary channel the primary code is set.
    pub open spec fn well_formed(self) -> bool {
        &&& self.status != NssStatus::Success
        &&& self.h_errno != NETDB_SUCCESS
        &&& (self.h_errno == NETDB_INTERNAL ==> self.errno != 0)
    }

    /// The pairing reserved for scratch-buffer exhaustion.
    pub open spec fn is_reserved(self) -> bool {
        self.status == NssStatus::TryAgain && self.errno == spec_erange()
    }

    /// What code outside this crate may construct.
    pub open spec fn constructible(self) -> bool {
        self.well_formed() && !self.is_reserved()
    }

    /// The two-channel report of this error: the secondary code is always
    /// written; the primary code only when the secondary code defers to it.
    pub open spec fn spec_report(self) -> Report {
        Report {
            status: self.status,
            errno: if self.h_errno == NETDB_INTERNAL { Some(self.errno) } else { None },
            h_errno: self.h_errno,
        }
    }
}

/// What is written to the two error slots, and the status returned.
#[derive(Clone, Copy, Debug, PartialEq, Eq, Structural)]
pub struct Report {
    pub status: NssStatus,
    /// The primary code, when it is to be written.
    pub errno: Option<i32>,
    /// The secondary code, always written.
    pub h_errno: i32,
}

/// A failed lookup. Its parts always satisfy `ErrorParts::well_formed`.
#[derive(Clone, Copy, Debug)]
pub struct Error {
    status: NssStatus,
    errno: i32,
    h_errno: i32,
}

impl View for Error {
    type V = ErrorParts;

    closed spec fn view(&self) -> ErrorParts {
        ErrorParts { status: self.status, errno: self.errno, h_errno: self.h_errno }
    }
}

impl Error {
    #[verifier::type_invariant]
    spec fn inv(self) -> bool {
        self@.well_formed()
    }

    pub open spec fn spec_buffer_too_small() -> ErrorParts {
        ErrorParts { status: NssStatus::TryAgain, errno: spec_erange(), h_errno: NETDB_INTERNAL }
    }

    pub open spec fn spec_invalid_args() -> ErrorParts {
        ErrorParts { status: NssStatus::Unavailable, errno: spec_einval(), h_errno: NETDB_INTERNAL }
    }

    pub open spec fn spec_not_found() -> ErrorParts {
        ErrorParts { status: NssStatus::NotFound, errno: spec_enoent(), h_errno: NETDB_INTERNAL }
    }

    /// The error for an exhausted scratch buffer: try again with a larger one.
    pub fn buffer_too_small() -> (r: Error)
        ensures
            r@ == Self::spec_buffer_too_small(),
    {
        Error { status: NssStatus::TryAgain, errno: erange(), h_errno: NETDB_INTERNAL }
    }

    /// The error for arguments the host runtime should not have passed.
    pub fn invalid_args() -> (r: Error)
        ensures
            r@ == Self::spec_invalid_args(),
    {
        Error::new(NssStatus::Unavailable, einval(), NETDB_INTERNAL)
    }

    /// An error reported through the primary channel alone.
    pub fn with_errno(status: NssStatus, errno: i32) -> (r: Error)
        requires
            (ErrorParts { status, errno, h_errno: NETDB_INTERNAL }).constructible(),
        ensures
            r@ == (ErrorParts { status, errno, h_errno: NETDB_INTERNAL }),
    {
        Error::new(status, errno, NETDB_INTERNAL)
    }

    /// An error with a resolver-specific reason in the secondary channel.
    pub fn with_host(status: NssStatus, errno: i32, h_errno: HostError) -> (r: Error)
        requires
            (ErrorParts { status, errno, h_errno: h_errno.spec_code() }).constructible(),
        ensures
            r@ == (ErrorParts { status, errno, h_errno: h_errno.spec_code() }),
    {
        Error::new(status, errno, h_errno.code())
    }

    fn new(status: NssStatus, errno: i32, h_errno: i32) -> (r: Error)
        requires
            (ErrorParts { status, errno, h_errno }).constructible(),
        ensures
            r@ == (ErrorParts { status, errno, h_errno }),
    {
        Error { status, errno, h_errno }
    }

    /// Builds an error from its parts when they are constructible, and
    /// refuses them otherwise; a caller that is refused has a defect and
    /// must not report anything.
    pub fn try_new(status: NssStatus, errno: i32, h_errno: i32) -> (r: Option<Error>)
        ensures
            r is Some <==> (ErrorParts { status, errno, h_errno }).constructible(),
            r matches Some(e) ==> e@ == (ErrorParts { status, errno, h_errno }),
            status == NssStatus::Success ==> r is None,
    {
        if status == NssStatus::Success || h_errno == NETDB_SUCCESS
            || (h_errno == NETDB_INTERNAL && errno == 0)
            || (status == NssStatus::TryAgain && errno == erange()) {
            None
        } else {
            Some(Error::new(status, errno, h_errno))
        }
    }

    /// The status, primary code and secondary code of this error.
    pub fn parts(&self) -> (r: ErrorParts)
        ensures
            r == self@,
            r.well_formed(),
    {
        proof {
            use_type_invariant(self);
        }
        ErrorParts { status: self.status, errno: self.errno, h_errno: self.h_errno }
    }

    pub fn status(&self) -> (r: NssStatus)
        ensures
            r == self@.status,
            r != NssStatus::Success,
    {
        proof {
            use_type_invariant(self);
        }
        self.status
    }

    /// The two-channel report of this error.
    pub fn report_with_host(&self) -> (r: Report)
        ensures
            r == self@.spec_report(),
    {
        let errno = if self.h_errno == NETDB_INTERNAL { Some(self.errno) } else { None };
        Report { status: self.status, errno, h_errno: self.h_errno }
    }
}

} // verus!
