//! The native-coin application. Its payloads carry no asset id: the asset is
//! always the native coin, whose id is zero.
use vstd::prelude::*;
use crate::application::{Application, VerificationOutput};
use crate::commitments::Commitments;
use crate::error::BridgeError;
use crate::eth_payload::{decoded, is_wire, lemma_decoded, InPayload, OutPayload};
use crate::ledger::{burn_effect, op_effect, Ledger, LedgerOp};
use crate::types::{native_asset, Account, Address, Amount};

verus! {

/// Signals that a burn was committed for release on the remote chain.
#[derive(Clone, Copy, Debug, PartialEq, Eq)]
pub struct TransferEvent {
    pub sender: Account,
    pub recipient: Address,
    pub amount: Amount,
}

/// The native-coin application, configured once with its identity.
pub struct EthApp {
    address: Address,
}

/// The ledger operation that handling a well-formed payload asks for.
pub open spec fn mint_op(p: InPayload) -> LedgerOp {
    LedgerOp::Mint(native_asset(), p.recipient_addr, p.amount)
}

impl EthApp {
    pub fn new(address: Address) -> (r: EthApp)
        ensures
            r.spec_address() == address,
    {
        EthApp { address }
    }

    /// Burns `amount` of the native coin held by `who`, commits the outbound
    /// payload under this application's identity and returns the transfer
    /// event. A refused burn changes nothing and is passed on.
    pub fn burn<L: Ledger, C: Commitments>(
        &self,
        ledger: &mut L,
        commitments: &mut C,
        who: Account,
        recipient: Address,
        amount: Amount,
    ) -> (r: Result<TransferEvent, BridgeError>)
        requires
            old(ledger).inv(),
        ensures
            final(ledger).inv(),
            burn_effect(
                *old(ledger),
                *final(ledger),
                native_asset(),
                who,
                amount,
                old(ledger).burn_outcome(native_asset(), who, amount),
            ),
            match old(ledger).burn_outcome(native_asset(), who, amount) {
                Ok(()) => {
                    &&& r == Ok::<TransferEvent, BridgeError>(
                        (TransferEvent { sender: who, recipient, amount }),
                    )
                    &&& final(commitments).entries() == old(commitments).entries().push(
                        (
                            self.spec_address(),
                            (OutPayload {
                                sender_addr: who,
                                recipient_addr: recipient,
                                amount,
                            }).spec_encode(),
                        ),
                    )
                },
                Err(e) => {
                    &&& r == Err::<TransferEvent, BridgeError>(BridgeError::Ledger(e))
                    &&& *final(commitments) == *old(commitments)
                },
            },
    {
        let asset_id = Address::zero();
        match ledger.burn(&asset_id, &who, &amount) {
            Ok(()) => {},
            Err(e) => {
                return Err(BridgeError::Ledger(e));
            },
        }
        let message = OutPayload { sender_addr: who, recipient_addr: recipient, amount };
        commitments.add(self.address(), message.encode());
        Ok(TransferEvent { sender: who, recipient, amount })
    }

    /// Mints what a decoded payload carries, in the native coin.
    pub fn handle_event<L: Ledger>(&self, ledger: &mut L, payload: InPayload) -> (r: Result<
        (),
        BridgeError,
    >)
        requires
            old(ledger).inv(),
        ensures
            final(ledger).inv(),
            op_effect(*old(ledger), *final(ledger), mint_op(payload), r),
    {
        let asset_id = Address::zero();
        match ledger.mint(&asset_id, &payload.recipient_addr, &payload.amount) {
            Ok(()) => Ok(()),
            Err(e) => Err(BridgeError::Ledger(e)),
        }
    }
}

impl Application for EthApp {
    closed spec fn spec_address(&self) -> Address {
        self.address
    }

    open spec fn spec_handle(&self, payload: Seq<u8>) -> Result<LedgerOp, BridgeError> {
        if is_wire(payload) {
            Ok(mint_op(decoded(payload)))
        } else {
            Err(BridgeError::InvalidPayload)
        }
    }

    fn handle<L: Ledger>(
        &self,
        ledger: &mut L,
        payload: &[u8],
        verification_output: &VerificationOutput,
    ) -> (r: Result<(), BridgeError>) {
        let decoded_payload = match InPayload::decode(payload) {
            Ok(p) => p,
            Err(_) => {
                return Err(BridgeError::InvalidPayload);
            },
        };
        proof {
            lemma_decoded(decoded_payload);
        }
        self.handle_event(ledger, decoded_payload)
    }

    fn address(&self) -> (r: Address) {
        self.address
    }
}

} // verus!

verus! {

/// The ledger operation of a committed burn.
pub open spec fn burn_op(p: OutPayload) -> LedgerOp {
    LedgerOp::Burn(native_asset(), p.sender_addr, p.amount)
}

/// The ledger operation that handling the bytes of `p` asks for.
pub open spec fn relayed_op(app: EthApp, p: OutPayload) -> LedgerOp {
    app.spec_handle(p.spec_encode())->Ok_0
}

/// The native-coin application mints nothing but the native coin, and
/// refuses a payload laid out with an explicit asset id.
pub proof fn lemma_native_only(app: EthApp, payload: Seq<u8>, token_payload: crate::erc20_payload::InPayload)
    ensures
        app.spec_handle(payload) matches Ok(LedgerOp::Mint(a, _, _)) ==> a == native_asset(),
        app.spec_handle(token_payload.spec_encode()) == Err::<LedgerOp, BridgeError>(
            BridgeError::InvalidPayload,
        ),
{
}

/// The bytes committed for a burn, once handled, mint the same amount of the
/// native coin to the account that burned it.
pub proof fn lemma_relayed_burn(app: EthApp, p: OutPayload)
    ensures
        app.spec_handle(p.spec_encode()) == Ok::<LedgerOp, BridgeError>(
            LedgerOp::Mint(native_asset(), p.sender_addr, p.amount),
        ),
{
    crate::eth_payload::lemma_round_trip(p, p.mirrored());
    lemma_decoded(p.mirrored());
}

/// Conservation: handling, one by one, the bytes committed for a sequence of
/// burns mints, for every asset, the sum of the amounts burned.
pub proof fn lemma_conservation(app: EthApp, burns: Seq<OutPayload>, asset: Address)
    ensures
        forall|i: int| 0 <= i < burns.len() ==> app.spec_handle(burns[i].spec_encode()) is Ok,
        crate::ledger::burned_total(burns.map_values(|p: OutPayload| burn_op(p)), asset)
            == crate::ledger::minted_total(
            burns.map_values(|p: OutPayload| relayed_op(app, p)),
            asset,
        ),
    decreases burns.len(),
{
    assert forall|i: int| 0 <= i < burns.len() implies app.spec_handle(
        burns[i].spec_encode(),
    ) is Ok by {
        lemma_relayed_burn(app, burns[i]);
    }
    if burns.len() > 0 {
        let init = burns.drop_last();
        lemma_conservation(app, init, asset);
        lemma_relayed_burn(app, burns.last());
        assert(burns.map_values(|p: OutPayload| burn_op(p)).drop_last() =~= init.map_values(
            |p: OutPayload| burn_op(p),
        ));
        assert(burns.map_values(|p: OutPayload| relayed_op(app, p)).drop_last()
            =~= init.map_values(|p: OutPayload| relayed_op(app, p)));
    } else {
        assert(burns.map_values(|p: OutPayload| burn_op(p)) =~= Seq::<LedgerOp>::empty());
        assert(burns.map_values(|p: OutPayload| relayed_op(app, p)) =~= Seq::<
            LedgerOp,
        >::empty());
    }
}

} // verus!
