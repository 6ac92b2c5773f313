//! The asset ledger as the bridge sees it: fallible burns and mints, modelled
//! by balances, the journal of the operations that took effect, and the
//! answer the ledger gives in each state.
use vstd::prelude::*;
use crate::error::{BridgeError, LedgerError};
use crate::types::{Account, Address, Amount};

verus! {

/// One operation that the ledger carried out.
#[derive(Clone, Copy, Debug, PartialEq, Eq)]
pub enum LedgerOp {
    Burn(Address, Account, Amount),
    Mint(Address, Account, Amount),
}

/// Whether a burn of `amount` of `asset_id` from `who`, answered `r`, took
/// `before` to `after`: on success the journal gains the burn and the balance
/// drops by the amount; on a refusal nothing changes; no other balance moves.
pub open spec fn burn_effect<L: Ledger>(
    before: L,
    after: L,
    asset_id: Address,
    who: Account,
    amount: Amount,
    r: Result<(), LedgerError>,
) -> bool {
    &&& r is Ok ==> after.journal() == before.journal().push(
        LedgerOp::Burn(asset_id, who, amount),
    ) && after.balance(asset_id, who) + amount.value() == before.balance(asset_id, who)
    &&& r is Err ==> after.journal() == before.journal()
    &&& forall|a: Address, w: Account|
        (a, w) != (asset_id, who) || r is Err ==> #[trigger] after.balance(a, w) == before.balance(
            a,
            w,
        )
}

/// Whether a mint of `amount` of `asset_id` to `who`, answered `r`, took
/// `before` to `after`: on success the journal gains the mint and the balance
/// grows by the amount; on a refusal nothing changes; no other balance moves.
pub open spec fn mint_effect<L: Ledger>(
    before: L,
    after: L,
    asset_id: Address,
    who: Account,
    amount: Amount,
    r: Result<(), LedgerError>,
) -> bool {
    &&& r is Ok ==> after.journal() == before.journal().push(
        LedgerOp::Mint(asset_id, who, amount),
    ) && after.balance(asset_id, who) == before.balance(asset_id, who) + amount.value()
    &&& r is Err ==> after.journal() == before.journal()
    &&& forall|a: Address, w: Account|
        (a, w) != (asset_id, who) || r is Err ==> #[trigger] after.balance(a, w) == before.balance(
            a,
            w,
        )
}

/// A balance store shared by all bridge applications, keyed by asset id.
/// Whether it accepts an operation depends on its state alone, and a refused
/// operation changes nothing.
pub trait Ledger: Sized {
    /// The ledger's own well-formedness, kept by every operation.
    spec fn inv(&self) -> bool;

    /// The operations carried out so far, oldest first.
    spec fn journal(&self) -> Seq<LedgerOp>;

    /// The balance of `who` in `asset_id`.
    spec fn balance(&self, asset_id: Address, who: Account) -> nat;

    /// How the ledger, as it stands, answers a burn.
    spec fn burn_outcome(&self, asset_id: Address, who: Account, amount: Amount) -> Result<
        (),
        LedgerError,
    >;

    /// How the ledger, as it stands, answers a mint.
    spec fn mint_outcome(&self, asset_id: Address, who: Account, amount: Amount) -> Result<
        (),
        LedgerError,
    >;

    fn burn(&mut self, asset_id: &Address, who: &Account, amount: &Amount) -> (r: Result<
        (),
        LedgerError,
    >)
        requires
            old(self).inv(),
        ensures
            final(self).inv(),
            r == old(self).burn_outcome(*asset_id, *who, *amount),
            r is Ok ==> final(self).journal() == old(self).journal().push(
                LedgerOp::Burn(*asset_id, *who, *amount),
            ),
            r is Ok ==> final(self).balance(*asset_id, *who) + amount.value() == old(self).balance(*asset_id, *who),
            r is Err ==> final(self).journal() == old(self).journal(),
            forall|a: Address, w: Account|
                (a, w) != (*asset_id, *who) || r is Err ==> #[trigger] final(self).balance(a, w)
                    == old(self).balance(a, w),
    ;

    fn mint(&mut self, asset_id: &Address, who: &Account, amount: &Amount) -> (r: Result<
        (),
        LedgerError,
    >)
        requires
            old(self).inv(),
        ensures
            final(self).inv(),
            r == old(self).mint_outcome(*asset_id, *who, *amount),
            r is Ok ==> final(self).journal() == old(self).journal().push(
                LedgerOp::Mint(*asset_id, *who, *amount),
            ),
            r is Ok ==> final(self).balance(*asset_id, *who) == old(self).balance(*asset_id, *who) + amount.value(),
            r is Err ==> final(self).journal() == old(self).journal(),
            forall|a: Address, w: Account|
                (a, w) != (*asset_id, *who) || r is Err ==> #[trigger] final(self).balance(a, w)
                    == old(self).balance(a, w),
    ;
}

/// A ledger answer as the bridge passes it on.
pub open spec fn lift(r: Result<(), LedgerError>) -> Result<(), BridgeError> {
    match r {
        Ok(()) => Ok(()),
        Err(e) => Err(BridgeError::Ledger(e)),
    }
}

/// Whether asking `before` for `op` took it to `after` with result `r`: the
/// ledger's own answer, passed on as it is, with the operation's effect.
pub open spec fn op_effect<L: Ledger>(
    before: L,
    after: L,
    op: LedgerOp,
    r: Result<(), BridgeError>,
) -> bool {
    match op {
        LedgerOp::Burn(a, w, m) => {
            &&& r == lift(before.burn_outcome(a, w, m))
            &&& burn_effect(before, after, a, w, m, before.burn_outcome(a, w, m))
        },
        LedgerOp::Mint(a, w, m) => {
            &&& r == lift(before.mint_outcome(a, w, m))
            &&& mint_effect(before, after, a, w, m, before.mint_outcome(a, w, m))
        },
    }
}

/// The sum of the amounts burned of `asset` in `ops`.
pub open spec fn burned_total(ops: Seq<LedgerOp>, asset: Address) -> nat
    decreases ops.len(),
{
    if ops.len() == 0 {
        0
    } else {
        burned_total(ops.drop_last(), asset) + match ops.last() {
            LedgerOp::Burn(a, _, m) => if a == asset {
                m.value()
            } else {
                0
            },
            LedgerOp::Mint(..) => 0,
        }
    }
}

/// The sum of the amounts minted of `asset` in `ops`.
pub open spec fn minted_total(ops: Seq<LedgerOp>, asset: Address) -> nat
    decreases ops.len(),
{
    if ops.len() == 0 {
        0
    } else {
        minted_total(ops.drop_last(), asset) + match ops.last() {
            LedgerOp::Mint(a, _, m) => if a == asset {
                m.value()
            } else {
                0
            },
            LedgerOp::Burn(..) => 0,
        }
    }
}

} // verus!
