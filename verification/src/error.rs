//! What can go wrong while talking to the card service, and why an attempt stopped.

use vstd::prelude::*;
use crate::decision::AuthDecision;

verus! {

/// Platform code reported when the reader holds no card.
pub const NO_SMARTCARD: u32 = 0x8010_000C;

/// Platform code reported when the receive buffer cannot hold the answer.
pub const INSUFFICIENT_BUFFER: u32 = 0x8010_0008;

/// Platform code reported when a reader of that name is not known.
pub const UNKNOWN_READER: u32 = 0x8010_0009;

/// A failure of one hardware operation. Each is local to one attempt.
#[derive(Clone, Copy, Debug, PartialEq, Eq, Structural)]
pub enum CardError {
    /// The card service could not be reached.
    ContextUnavailable,
    /// The card service could not report its readers.
    EnumerationFailed,
    /// The reader is empty.
    NoCardPresent,
    /// The reader could not be opened for any other cause.
    ConnectFailed,
    /// The exchange with the card broke down.
    TransmitFailed,
    /// The card answered with more bytes than the receive buffer holds.
    ResponseTooLarge,
}

/// Why an attempt came to its end.
#[derive(Clone, Copy, Debug, PartialEq, Eq, Structural)]
pub enum StopReason {
    /// A hardware operation failed.
    Failed(CardError),
    /// The card service reported no reader at all.
    NoReaders,
    /// Every reported reader has been probed.
    NoMoreReaders,
    /// The retry budget ran out.
    BudgetExhausted,
    /// A card answered the probe with data.
    DataReturned,
    /// The host reported something that was not asked for.
    OutOfTurn,
}

/// The failure that a platform code stands for when a connect is refused.
pub open spec fn spec_connect_error(code: u32) -> CardError {
    if code == NO_SMARTCARD {
        CardError::NoCardPresent
    } else {
        CardError::ConnectFailed
    }
}

/// The failure that a platform code stands for when an exchange is refused.
pub open spec fn spec_transmit_error(code: u32) -> CardError {
    if code == INSUFFICIENT_BUFFER {
        CardError::ResponseTooLarge
    } else {
        CardError::TransmitFailed
    }
}

/// Classifies the platform code of a refused connect.
pub fn connect_error(code: u32) -> (e: CardError)
    ensures
        e == spec_connect_error(code),
{
    if code == NO_SMARTCARD {
        CardError::NoCardPresent
    } else {
        CardError::ConnectFailed
    }
}

/// Classifies the platform code of a refused exchange.
pub fn transmit_error(code: u32) -> (e: CardError)
    ensures
        e == spec_transmit_error(code),
{
    if code == INSUFFICIENT_BUFFER {
        CardError::ResponseTooLarge
    } else {
        CardError::TransmitFailed
    }
}

impl CardError {
    /// Every failure denies access in the same way.
    pub open spec fn spec_decision(self) -> AuthDecision {
        AuthDecision::InfoUnavailable
    }

    /// The decision the host is given after this failure.
    pub fn decision(self) -> (d: AuthDecision)
        ensures
            d == self.spec_decision(),
            d == AuthDecision::InfoUnavailable,
    {
        AuthDecision::InfoUnavailable
    }

    /// A line for the operational log.
    pub fn describe(self) -> (s: &'static str)
        ensures
            s@ == self.spec_describe(),
    {
        match self {
            CardError::ContextUnavailable => "card service unavailable",
            CardError::EnumerationFailed => "readers could not be listed",
            CardError::NoCardPresent => "no card in the reader",
            CardError::ConnectFailed => "connect to the card failed",
            CardError::TransmitFailed => "exchange with the card failed",
            CardError::ResponseTooLarge => "response exceeds the receive buffer",
        }
    }

    /// The text of the log line for each failure.
    pub open spec fn spec_describe(self) -> Seq<char> {
        match self {
            CardError::ContextUnavailable => "card service unavailable"@,
            CardError::EnumerationFailed => "readers could not be listed"@,
            CardError::NoCardPresent => "no card in the reader"@,
            CardError::ConnectFailed => "connect to the card failed"@,
            CardError::TransmitFailed => "exchange with the card failed"@,
            CardError::ResponseTooLarge => "response exceeds the receive buffer"@,
        }
    }
}

impl StopReason {
    /// No way of stopping grants access.
    pub open spec fn spec_decision(self) -> AuthDecision {
        AuthDecision::InfoUnavailable
    }

    /// The decision the host is given when an attempt stops for this reason.
    pub fn decision(self) -> (d: AuthDecision)
        ensures
            d == self.spec_decision(),
            d == AuthDecision::InfoUnavailable,
    {
        AuthDecision::InfoUnavailable
    }

    /// The failure behind this reason, where a hardware operation failed.
    pub fn error(self) -> (e: Option<CardError>)
        ensures
            e == self.spec_error(),
    {
        match self {
            StopReason::Failed(err) => Some(err),
            _ => None,
        }
    }

    /// The failure behind this reason, where a hardware operation failed.
    pub open spec fn spec_error(self) -> Option<CardError> {
        match self {
            StopReason::Failed(err) => Some(err),
            _ => None,
        }
    }
}

} // verus!
