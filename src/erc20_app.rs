//! The token application. Its payloads carry the token's remote address as
//! asset id; the zero id belongs to the native coin and is refused here.
use vstd::prelude::*;
use crate::application::{Application, VerificationOutput};
use crate::commitments::Commitments;
use crate::erc20_payload::{decoded, is_wire, lemma_decoded, InPayload, OutPayload};
use crate::error::BridgeError;
use crate::ledger::{burn_effect, op_effect, Ledger, LedgerOp};
use crate::types::{native_asset, Account, Address, Amount};

verus! {

/// Signals that a token burn was committed for release on the remote chain.
#[derive(Clone, Copy, Debug, PartialEq, Eq)]
pub struct TransferEvent {
    pub asset_id: Address,
    pub sender: Account,
    pub recipient: Address,
    pub amount: Amount,
}

/// The token application, configured once with its identity.
pub struct Erc20App {
    address: Address,
}

/// What handling a payload that decoded to `p` asks of the ledger.
pub open spec fn handle_result(p: InPayload) -> Result<LedgerOp, BridgeError> {
    if p.token_addr == native_asset() {
        Err(BridgeError::InvalidAssetId)
    } else {
        Ok(LedgerOp::Mint(p.token_addr, p.recipient_addr, p.amount))
    }
}

impl Erc20App {
    pub fn new(address: Address) -> (r: Erc20App)
        ensures
            r.spec_address() == address,
    {
        Erc20App { address }
    }

    /// Burns `amount` of token `asset_id` held by `who`, commits the outbound
    /// payload under this application's identity and returns the transfer
    /// event. The zero asset id is refused before the ledger is asked; a
    /// refused burn changes nothing and is passed on.
    pub fn burn<L: Ledger, C: Commitments>(
        &self,
        ledger: &mut L,
        commitments: &mut C,
        who: Account,
        asset_id: Address,
        recipient: Address,
        amount: Amount,
    ) -> (r: Result<TransferEvent, BridgeError>)
        requires
            old(ledger).inv(),
        ensures
            final(ledger).inv(),
            asset_id == native_asset() ==> {
                &&& r == Err::<TransferEvent, BridgeError>(BridgeError::InvalidAssetId)
                &&& *final(ledger) == *old(ledger)
                &&& *final(commitments) == *old(commitments)
            },
            asset_id != native_asset() ==> burn_effect(
                *old(ledger),
                *final(ledger),
                asset_id,
                who,
                amount,
                old(ledger).burn_outcome(asset_id, who, amount),
            ),
            asset_id != native_asset() ==> match old(ledger).burn_outcome(asset_id, who, amount) {
                Ok(()) => {
                    &&& r == Ok::<TransferEvent, BridgeError>(
                        (TransferEvent { asset_id, sender: who, recipient, amount }),
                    )
                    &&& final(commitments).entries() == old(commitments).entries().push(
                        (
                            self.spec_address(),
                            (OutPayload {
                                token_addr: asset_id,
                                sender_addr: who,
                                recipient_addr: recipient,
                                amount,
                            }).spec_encode(),
                        ),
                    )
                },
                Err(e) => {
                    &&& r == Err::<TransferEvent, BridgeError>(BridgeError::Ledger(e))
                    &&& *final(commitments) == *old(commitments)
                },
            },
    {
        if asset_id.is_zero() {
            return Err(BridgeError::InvalidAssetId);
        }
        match ledger.burn(&asset_id, &who, &amount) {
            Ok(()) => {},
            Err(e) => {
                return Err(BridgeError::Ledger(e));
            },
        }
        let message = OutPayload {
            token_addr: asset_id,
            sender_addr: who,
            recipient_addr: recipient,
            amount,
        };
        commitments.add(self.address(), message.encode());
        Ok(TransferEvent { asset_id, sender: who, recipient, amount })
    }

    /// Mints what a decoded payload carries, refusing the zero asset id.
    pub fn handle_event<L: Ledger>(&self, ledger: &mut L, payload: InPayload) -> (r: Result<
        (),
        BridgeError,
    >)
        requires
            old(ledger).inv(),
        ensures
            final(ledger).inv(),
            match handle_result(payload) {
                Err(e) => r == Err::<(), BridgeError>(e) && *final(ledger) == *old(ledger),
                Ok(op) => op_effect(*old(ledger), *final(ledger), op, r),
            },
    {
        if payload.token_addr.is_zero() {
            return Err(BridgeError::InvalidAssetId);
        }
        match ledger.mint(&payload.token_addr, &payload.recipient_addr, &payload.amount) {
            Ok(()) => Ok(()),
            Err(e) => Err(BridgeError::Ledger(e)),
        }
    }
}

impl Application for Erc20App {
    closed spec fn spec_address(&self) -> Address {
        self.address
    }

    open spec fn spec_handle(&self, payload: Seq<u8>) -> Result<LedgerOp, BridgeError> {
        if is_wire(payload) {
            handle_result(decoded(payload))
        } else {
            Err(BridgeError::InvalidPayload)
        }
    }

    fn handle<L: Ledger>(
        &self,
        ledger: &mut L,
        payload: &[u8],
        verification_output: &VerificationOutput,
    ) -> (r: Result<(), BridgeError>) {
        let decoded_payload = match InPayload::decode(payload) {
            Ok(p) => p,
            Err(_) => {
                return Err(BridgeError::InvalidPayload);
            },
        };
        proof {
            lemma_decoded(decoded_payload);
        }
        self.handle_event(ledger, decoded_payload)
    }

    fn address(&self) -> (r: Address) {
        self.address
    }
}

} // verus!

verus! {

/// The ledger operation of a committed burn.
pub open spec fn burn_op(p: OutPayload) -> LedgerOp {
    LedgerOp::Burn(p.token_addr, p.sender_addr, p.amount)
}

/// The ledger operation that handling the bytes of `p` asks for.
pub open spec fn relayed_op(app: Erc20App, p: OutPayload) -> LedgerOp {
    app.spec_handle(p.spec_encode())->Ok_0
}

/// A payload for the zero asset id is refused, whatever else it carries.
pub proof fn lemma_zero_token_refused(app: Erc20App, p: InPayload)
    requires
        p.token_addr == native_asset(),
    ensures
        app.spec_handle(p.spec_encode()) == Err::<LedgerOp, BridgeError>(
            BridgeError::InvalidAssetId,
        ),
{
    crate::erc20_payload::lemma_wire_is_decodable(
        p.token_addr,
        p.recipient_addr,
        p.sender_addr,
        p.amount,
    );
    lemma_decoded(p);
}

/// The bytes committed for a burn of a token, once handled, mint the same
/// amount of the same token to the account that burned it.
pub proof fn lemma_relayed_burn(app: Erc20App, p: OutPayload)
    requires
        p.token_addr != native_asset(),
    ensures
        app.spec_handle(p.spec_encode()) == Ok::<LedgerOp, BridgeError>(
            LedgerOp::Mint(p.token_addr, p.sender_addr, p.amount),
        ),
{
    crate::erc20_payload::lemma_round_trip(p, p.mirrored());
    lemma_decoded(p.mirrored());
}

/// Conservation: handling, one by one, the bytes committed for a sequence of
/// token burns mints, for every asset, the sum of the amounts burned.
pub proof fn lemma_conservation(app: Erc20App, burns: Seq<OutPayload>, asset: Address)
    requires
        forall|i: int| 0 <= i < burns.len() ==> burns[i].token_addr != native_asset(),
    ensures
        forall|i: int| 0 <= i < burns.len() ==> app.spec_handle(burns[i].spec_encode()) is Ok,
        crate::ledger::burned_total(burns.map_values(|p: OutPayload| burn_op(p)), asset)
            == crate::ledger::minted_total(
            burns.map_values(|p: OutPayload| relayed_op(app, p)),
            asset,
        ),
    decreases burns.len(),
{
    assert forall|i: int| 0 <= i < burns.len() implies app.spec_handle(
        burns[i].spec_encode(),
    ) is Ok by {
        lemma_relayed_burn(app, burns[i]);
    }
    if burns.len() > 0 {
        let init = burns.drop_last();
        lemma_conservation(app, init, asset);
        lemma_relayed_burn(app, burns.last());
        assert(burns.map_values(|p: OutPayload| burn_op(p)).drop_last() =~= init.map_values(
            |p: OutPayload| burn_op(p),
        ));
        assert(burns.map_values(|p: OutPayload| relayed_op(app, p)).drop_last()
            =~= init.map_values(|p: OutPayload| relayed_op(app, p)));
    } else {
        assert(burns.map_values(|p: OutPayload| burn_op(p)) =~= Seq::<LedgerOp>::empty());
        assert(burns.map_values(|p: OutPayload| relayed_op(app, p)) =~= Seq::<
            LedgerOp,
        >::empty());
    }
}

} // verus!
