//! What every bridge application offers, and what verification hands it.
use vstd::prelude::*;
use crate::error::BridgeError;
use crate::ledger::{op_effect, Ledger, LedgerOp};
use crate::types::{AppId, Address};

verus! {

/// A message from the remote chain, as submitted for verification.
#[derive(Debug)]
pub struct Message {
    pub payload: Vec<u8>,
}

/// What verification produced for a message. Applications take it as proof
/// that the payload is authentic and do not compare the two.
#[derive(Debug)]
pub enum VerificationOutput {
    Empty,
    Receipt(Vec<u8>),
}

/// Verifies messages from the remote chain.
pub trait Verifier<AccountId> {
    fn verify(sender: AccountId, app_id: AppId, message: &Message) -> Result<
        VerificationOutput,
        BridgeError,
    >;
}

/// A bridge application: handles inbound payloads for one asset class.
pub trait Application {
    /// The identity under which the application commits and is dispatched to.
    spec fn spec_address(&self) -> Address;

    /// What handling `payload` asks of the ledger, or why it is refused
    /// before the ledger is asked.
    spec fn spec_handle(&self, payload: Seq<u8>) -> Result<LedgerOp, BridgeError>;

    /// Decodes `payload`, checks it, and mints what it carries.
    fn handle<L: Ledger>(
        &self,
        ledger: &mut L,
        payload: &[u8],
        verification_output: &VerificationOutput,
    ) -> (r: Result<(), BridgeError>)
        requires
            old(ledger).inv(),
        ensures
            final(ledger).inv(),
            match self.spec_handle(payload@) {
                Err(e) => r == Err::<(), BridgeError>(e) && *final(ledger) == *old(ledger),
                Ok(op) => op_effect(*old(ledger), *final(ledger), op, r),
            },
    ;

    fn address(&self) -> (r: Address)
        ensures
            r == self.spec_address(),
    ;
}

} // verus!
