//! What can go wrong in the bridge.
use vstd::prelude::*;

verus! {

/// Why the asset ledger refused a burn or a mint.
#[derive(Clone, Copy, Debug, PartialEq, Eq, Structural)]
pub enum LedgerError {
    /// The account holds less than the amount to burn.
    InsufficientBalance,
    /// The balance would exceed the largest 256-bit amount.
    Overflow,
}

/// A payload whose bytes do not follow the layout of its application.
#[derive(Clone, Copy, Debug, PartialEq, Eq, Structural)]
pub struct DecodeError {}

/// Why a bridge operation failed. Every failure leaves the ledger and the
/// commitment log as they were.
#[derive(Clone, Copy, Debug, PartialEq, Eq, Structural)]
pub enum BridgeError {
    /// The zero asset used where a token is required.
    InvalidAssetId,
    /// The inbound payload could not be decoded.
    InvalidPayload,
    /// The ledger refused the burn or the mint.
    Ledger(LedgerError),
    /// No application is registered under the given identity.
    UnknownApplication,
}

} // verus!
