//! The typed result channel of the page-cache core: a closed error taxonomy
//! that separates a lost optimistic-concurrency race (`CasFailed`, retryable
//! with the observed value) from caller misuse, internal invariant
//! violations, filesystem faults and storage corruption.

use vstd::prelude::*;
use vstd::std_specs::cmp::PartialEqSpec;
use vstd::std_specs::convert::FromSpec;
use vstd::string::StringExecFns;

use crate::render::{dec_of, debug_repr, u64_to_dec};

verus! {

/// A location in the storage log; only `Corruption` reads it, as the address
/// at which bad data was found. Its internal structure belongs to the
/// storage layer.
pub type LogID = u64;

/// The result type every fallible page-cache operation reports through.
pub type CacheResult<T, Actual> = Result<T, Error<Actual>>;

/// Declares `std::io::Error` so that the `Io` variant can carry it; the value
/// is opaque here and nothing is assumed of it.
#[verifier::external_type_specification]
#[verifier::external_body]
pub struct ExIoError(std::io::Error);

/// The issues that can come up in both the expected and the unexpected
/// operation of the page cache.
#[derive(Debug)]
pub enum Error<Actual> {
    /// An atomic operation has failed; carries the conflicting value that was
    /// current at the point of the failed update, so the caller can retry
    /// without re-reading shared state.
    CasFailed(Actual),
    /// The system has been used in an unsupported way.
    Unsupported(String),
    /// An unexpected bug has happened: an internal invariant was violated.
    ReportableBug(String),
    /// A read or write error has happened when interacting with the file
    /// system.
    Io(std::io::Error),
    /// Corruption has been detected in the storage file.
    Corruption {
        /// The file location that corrupted data was found at.
        at: LogID,
    },
}

impl<A: PartialEq> PartialEq for Error<A> {
    fn eq(&self, other: &Error<A>) -> (r: bool) {
        match (self, other) {
            (Error::CasFailed(a), Error::CasFailed(b)) => *a == *b,
            (Error::Unsupported(a), Error::Unsupported(b)) => *a == *b,
            (Error::ReportableBug(a), Error::ReportableBug(b)) => *a == *b,
            (Error::Corruption { at: a }, Error::Corruption { at: b }) => *a == *b,
            _ => false,
        }
    }
}

impl<A: PartialEq> vstd::std_specs::cmp::PartialEqSpecImpl for Error<A> {
    open spec fn obeys_eq_spec() -> bool {
        A::obeys_eq_spec()
    }

    /// Same variant with equal payloads, except that two `Io` errors are
    /// never equal, not even to themselves: an intentional property of the
    /// error model, not a defect.
    open spec fn eq_spec(&self, other: &Error<A>) -> bool {
        match (self, other) {
            (Error::CasFailed(a), Error::CasFailed(b)) => a.eq_spec(b),
            (Error::Unsupported(a), Error::Unsupported(b)) => a@ == b@,
            (Error::ReportableBug(a), Error::ReportableBug(b)) => a@ == b@,
            (Error::Corruption { at: a }, Error::Corruption { at: b }) => a == b,
            _ => false,
        }
    }
}

impl<T> From<std::io::Error> for Error<T> {
    fn from(io_error: std::io::Error) -> (r: Error<T>) {
        Error::Io(io_error)
    }
}

impl<T> vstd::std_specs::convert::FromSpecImpl<std::io::Error> for Error<T> {
    open spec fn obeys_from_spec() -> bool {
        true
    }

    open spec fn from_spec(v: std::io::Error) -> Error<T> {
        Error::Io(v)
    }
}

impl<T> Error<T> {
    /// Turns an `Error<T>` into an `Error<Other>` when the conflict payload
    /// converts; every other variant passes through structurally unchanged.
    pub fn cast<Other: From<T>>(self) -> (r: Error<Other>)
        ensures
            self matches Error::CasFailed(a) ==> r is CasFailed && (
            <Other as FromSpec<T>>::obeys_from_spec() ==> r == Error::<Other>::CasFailed(
                <Other as FromSpec<T>>::from_spec(a),
            )),
            self matches Error::Unsupported(s) ==> r == Error::<Other>::Unsupported(s),
            self matches Error::ReportableBug(s) ==> r == Error::<Other>::ReportableBug(s),
            self matches Error::Io(e) ==> r == Error::<Other>::Io(e),
            self matches Error::Corruption { at } ==> r == (Error::<Other>::Corruption { at }),
    {
        match self {
            Error::CasFailed(a) => Error::CasFailed(Other::from(a)),
            Error::Unsupported(s) => Error::Unsupported(s),
            Error::ReportableBug(s) => Error::ReportableBug(s),
            Error::Io(e) => Error::Io(e),
            Error::Corruption { at } => Error::Corruption { at },
        }
    }

    /// Turns an `Error<T>` into an `Error<Other>` without a conversion for
    /// the conflict payload. Calling it asserts that the value is statically
    /// known never to be `CasFailed`: that variant is ruled out by
    /// precondition, and a caller that cannot rule it out statically must
    /// test for it and abort, not recover, when the assertion fails.
    pub fn danger_cast<Other>(self) -> (r: Error<Other>)
        requires
            !(self is CasFailed),
        ensures
            self matches Error::Unsupported(s) ==> r == Error::<Other>::Unsupported(s),
            self matches Error::ReportableBug(s) ==> r == Error::<Other>::ReportableBug(s),
            self matches Error::Io(e) ==> r == Error::<Other>::Io(e),
            self matches Error::Corruption { at } ==> r == (Error::<Other>::Corruption { at }),
    {
        match self {
            Error::CasFailed(_) => vstd::pervasive::unreached(),
            Error::Unsupported(s) => Error::Unsupported(s),
            Error::ReportableBug(s) => Error::ReportableBug(s),
            Error::Io(e) => Error::Io(e),
            Error::Corruption { at } => Error::Corruption { at },
        }
    }
}

/// Relies on `std::io::Error`'s `Display` rendering for the wrapped
/// filesystem fault; nothing is assumed of the text it produces.
#[verifier::external_body]
fn io_display(e: &std::io::Error) -> String {
    format!("{}", e)
}

/// Applies the conflict template to an already rendered payload: the exact
/// text is the template prefix followed by the payload.
pub fn render_cas_failed(payload: &str) -> (r: String)
    ensures
        r@ == "Atomic operation has failed: "@ + payload@,
{
    String::from_str("Atomic operation has failed: ").concat(payload)
}

/// Applies the I/O-fault template to an already rendered payload: the exact
/// text is the template prefix followed by the payload.
pub fn render_io(payload: &str) -> (r: String)
    ensures
        r@ == "IO error: "@ + payload@,
{
    String::from_str("IO error: ").concat(payload)
}

impl<A: core::fmt::Debug> Error<A> {
    /// The exact textual rendering of the error, one fixed template per
    /// variant. For `Unsupported`, `ReportableBug` and `Corruption` the whole
    /// text is pinned down; for `CasFailed` and `Io` the payload part is
    /// whatever `core::fmt` produces, so only the template prefix is stated
    /// here, and the exact application of those two templates to the payload
    /// text stands in `render_cas_failed` and `render_io`, which the body
    /// goes through.
    pub fn display_string(&self) -> (r: String)
        ensures
            self matches Error::CasFailed(a) ==> ("Atomic operation has failed: "@).is_prefix_of(
                r@,
            ),
            self matches Error::Unsupported(s) ==> r@ == "Unsupported: "@ + s@,
            self matches Error::ReportableBug(s) ==> r@ == "Unexpected bug has happened: "@ + s@,
            self matches Error::Io(e) ==> ("IO error: "@).is_prefix_of(r@),
            self matches Error::Corruption { at } ==> r@ == "Corruption at: "@ + dec_of(at as nat),
    {
        match self {
            Error::CasFailed(a) => {
                let payload = debug_repr(a);
                let r = render_cas_failed(payload.as_str());
                proof {
                    assert(("Atomic operation has failed: "@).is_prefix_of(r@)) by {
                        assert("Atomic operation has failed: "@ =~= r@.subrange(
                            0,
                            "Atomic operation has failed: "@.len() as int,
                        ));
                    }
                }
                r
            },
            Error::Unsupported(s) => String::from_str("Unsupported: ").concat(s.as_str()),
            Error::ReportableBug(s) => String::from_str("Unexpected bug has happened: ").concat(
                s.as_str(),
            ),
            Error::Io(e) => {
                let payload = io_display(e);
                let r = render_io(payload.as_str());
                proof {
                    assert(("IO error: "@).is_prefix_of(r@)) by {
                        assert("IO error: "@ =~= r@.subrange(0, "IO error: "@.len() as int));
                    }
                }
                r
            },
            Error::Corruption { at } => String::from_str("Corruption at: ").concat(
                u64_to_dec(*at).as_str(),
            ),
        }
    }
}

} // verus!
