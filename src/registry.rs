//! Routes inbound payloads to the application registered under their
//! identity.
use vstd::prelude::*;
use crate::application::{Application, VerificationOutput};
use crate::erc20_app::Erc20App;
use crate::error::BridgeError;
use crate::eth_app::EthApp;
use crate::ledger::{op_effect, Ledger, LedgerOp};
use crate::types::AppId;

verus! {

/// The applications of the bridge, set up once. Where both were given the
/// same identity, the native-coin application takes its messages.
pub struct Registry {
    eth: EthApp,
    erc20: Erc20App,
}

impl Registry {
    pub closed spec fn spec_eth(&self) -> EthApp {
        self.eth
    }

    pub closed spec fn spec_erc20(&self) -> Erc20App {
        self.erc20
    }

    /// What dispatching `payload` to `app_id` asks of the ledger, or why it
    /// is refused before the ledger is asked.
    pub open spec fn spec_dispatch(&self, app_id: AppId, payload: Seq<u8>) -> Result<
        LedgerOp,
        BridgeError,
    > {
        if app_id == self.spec_eth().spec_address() {
            self.spec_eth().spec_handle(payload)
        } else if app_id == self.spec_erc20().spec_address() {
            self.spec_erc20().spec_handle(payload)
        } else {
            Err(BridgeError::UnknownApplication)
        }
    }

    pub fn new(eth: EthApp, erc20: Erc20App) -> (r: Registry)
        ensures
            r.spec_eth() == eth,
            r.spec_erc20() == erc20,
    {
        Registry { eth, erc20 }
    }

    pub fn eth(&self) -> (r: &EthApp)
        ensures
            *r == self.spec_eth(),
    {
        &self.eth
    }

    pub fn erc20(&self) -> (r: &Erc20App)
        ensures
            *r == self.spec_erc20(),
    {
        &self.erc20
    }

    /// Hands `payload` to the application registered under `app_id`.
    pub fn dispatch<L: Ledger>(
        &self,
        ledger: &mut L,
        app_id: &AppId,
        payload: &[u8],
        verification_output: &VerificationOutput,
    ) -> (r: Result<(), BridgeError>)
        requires
            old(ledger).inv(),
        ensures
            final(ledger).inv(),
            match self.spec_dispatch(*app_id, payload@) {
                Err(e) => r == Err::<(), BridgeError>(e) && *final(ledger) == *old(ledger),
                Ok(op) => op_effect(*old(ledger), *final(ledger), op, r),
            },
    {
        if app_id.equals(&self.eth.address()) {
            self.eth.handle(ledger, payload, verification_output)
        } else if app_id.equals(&self.erc20.address()) {
            self.erc20.handle(ledger, payload, verification_output)
        } else {
            Err(BridgeError::UnknownApplication)
        }
    }
}

} // verus!
