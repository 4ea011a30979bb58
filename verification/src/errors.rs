//! Error taxonomy of the provisioning pipeline and the outcome of an
//! atomic execution attempt.

use vstd::prelude::*;

verus! {

/// Why a pipeline step refused to proceed. Sizing and construction errors
/// are raised before any network interaction; the remaining variants
/// classify failures surfaced by the ledger collaborator.
#[derive(Clone, Copy, Debug, PartialEq, Eq, Structural)]
pub enum ProvisionError {
    /// Two selected extensions cannot be attached to the same resource.
    UnsupportedExtensionCombination,
    /// The requested value precision exceeds the protocol maximum.
    InvalidPrecision,
    /// Converting whole units to smallest units exceeds the representable range.
    AmountOverflow,
    /// A balance update would draw an account below zero.
    InsufficientFunds,
    /// The funding submission itself was rejected (for instance rate-limited).
    FundingRequestRejected,
    /// An operation requires a signature from an authority that was not supplied.
    MissingAuthority,
    /// The sequence puts an operation before one it depends on.
    OrderingViolation,
    /// The signing backend could not produce every required signature.
    SigningFailed,
    /// A metadata text field does not hold valid text bytes.
    MetadataNotUtf8,
    /// Raw resource bytes read back from the ledger do not decode.
    MalformedResource,
}

/// How an execution failure relates to a retry decision.
#[derive(Clone, Copy, Debug, PartialEq, Eq, Structural)]
pub enum FailureClass {
    /// The freshness token expired before execution; retriable by the
    /// caller with a new token and the same inputs.
    StaleFreshnessToken,
    /// The protocol logic rejected the unit; not retriable without
    /// changing the inputs.
    ProtocolRejection,
    /// The transport failed before an outcome was known.
    Transport,
}

/// The observable result of submitting one atomic unit: a confirmed
/// receipt (the confirmation signature bytes) or a classified failure.
#[derive(Debug)]
pub enum ExecutionOutcome {
    Confirmed { receipt: Vec<u8> },
    Failed { class: FailureClass },
}

/// Classifies a submission failure the way callers must react to it: an
/// expired freshness token is retriable with the same inputs, a report
/// from the protocol logic is not, and anything else failed in transport
/// before an outcome was known.
pub fn classify_failure(freshness_expired: bool, protocol_reported: bool) -> (r: FailureClass)
    ensures
        r == if freshness_expired {
            FailureClass::StaleFreshnessToken
        } else if protocol_reported {
            FailureClass::ProtocolRejection
        } else {
            FailureClass::Transport
        },
{
    if freshness_expired {
        FailureClass::StaleFreshnessToken
    } else if protocol_reported {
        FailureClass::ProtocolRejection
    } else {
        FailureClass::Transport
    }
}

impl ExecutionOutcome {
    /// Whether the caller may resubmit the same operations unchanged:
    /// true exactly for a staleness failure.
    pub fn is_retriable(&self) -> (r: bool)
        ensures
            r == (self is Failed && self->class == FailureClass::StaleFreshnessToken),
    {
        match self {
            ExecutionOutcome::Failed { class } => *class == FailureClass::StaleFreshnessToken,
            _ => false,
        }
    }

    /// Whether the unit was applied.
    pub fn is_confirmed(&self) -> (r: bool)
        ensures
            r == (self is Confirmed),
    {
        matches!(self, ExecutionOutcome::Confirmed { .. })
    }
}

} // verus!
