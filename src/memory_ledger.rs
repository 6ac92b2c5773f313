//! A ledger held in memory: one balance per asset and account.
use vstd::prelude::*;
use crate::error::LedgerError;
use crate::ledger::{Ledger, LedgerOp};
use crate::types::{Account, Address, Amount};

verus! {

/// Balances keyed by asset id and account, with the journal of the burns and
/// mints carried out. An account that was never credited holds zero.
pub struct MemoryLedger {
    entries: Vec<(Address, Account, Amount)>,
    balances: Ghost<Map<(Address, Account), nat>>,
    ops: Ghost<Seq<LedgerOp>>,
}

impl MemoryLedger {
    /// Each key has one entry, and the entries are the balances.
    pub closed spec fn wf(&self) -> bool {
        &&& forall|i: int, j: int|
            0 <= i < j < self.entries@.len() ==> (self.entries@[i].0, self.entries@[i].1) != (
                self.entries@[j].0,
                self.entries@[j].1,
            )
        &&& forall|i: int|
            0 <= i < self.entries@.len() ==> #[trigger] self.balances@.contains_key(
                (self.entries@[i].0, self.entries@[i].1),
            ) && self.balances@[(self.entries@[i].0, self.entries@[i].1)]
                == self.entries@[i].2.value()
        &&& forall|k: (Address, Account)|
            #[trigger] self.balances@.contains_key(k) ==> exists|i: int|
                0 <= i < self.entries@.len() && (self.entries@[i].0, self.entries@[i].1) == k
    }

    /// The balance of `who` in `asset_id`.
    pub closed spec fn balance_spec(&self, asset_id: Address, who: Account) -> nat {
        if self.balances@.contains_key((asset_id, who)) {
            self.balances@[(asset_id, who)]
        } else {
            0
        }
    }

    pub closed spec fn spec_journal(&self) -> Seq<LedgerOp> {
        self.ops@
    }

    pub fn new() -> (r: MemoryLedger)
        ensures
            r.wf(),
            r.spec_journal() == Seq::<LedgerOp>::empty(),
            forall|a: Address, w: Account| r.balance_spec(a, w) == 0,
    {
        MemoryLedger {
            entries: Vec::new(),
            balances: Ghost(Map::empty()),
            ops: Ghost(Seq::empty()),
        }
    }

    /// The index of the entry of (`asset_id`, `who`), if there is one.
    fn find(&self, asset_id: &Address, who: &Account) -> (r: Option<usize>)
        requires
            self.wf(),
        ensures
            r matches Some(i) ==> i < self.entries@.len() && self.entries@[i as int].0
                == *asset_id && self.entries@[i as int].1 == *who,
            r is None ==> !self.balances@.contains_key((*asset_id, *who)),
            r is None ==> forall|i: int|
                0 <= i < self.entries@.len() ==> (self.entries@[i].0, self.entries@[i].1) != (
                    *asset_id,
                    *who,
                ),
    {
        let mut i: usize = 0;
        while i < self.entries.len()
            invariant
                i <= self.entries@.len(),
                forall|j: int|
                    0 <= j < i ==> (self.entries@[j].0, self.entries@[j].1) != (*asset_id, *who),
            decreases self.entries@.len() - i,
        {
            let e = &self.entries[i];
            if e.0.equals(asset_id) && account_equals(&e.1, who) {
                return Some(i);
            }
            i = i + 1;
        }
        None
    }

    /// The balance of `who` in `asset_id`.
    pub fn balance_of(&self, asset_id: &Address, who: &Account) -> (r: Amount)
        requires
            self.wf(),
        ensures
            r.value() == self.balance_spec(*asset_id, *who),
    {
        match self.find(asset_id, who) {
            Some(i) => self.entries[i].2,
            None => {
                let r = Amount { bytes: [0u8; 32] };
                proof {
                    lemma_zero_amount(r);
                }
                r
            },
        }
    }

    /// Sets the balance of (`asset_id`, `who`) to `amount`.
    fn set_balance(&mut self, asset_id: &Address, who: &Account, amount: Amount)
        requires
            old(self).wf(),
        ensures
            final(self).wf(),
            final(self).ops == old(self).ops,
            final(self).balances@ == old(self).balances@.insert((*asset_id, *who), amount.value()),
    {
        let key = Ghost((*asset_id, *who));
        match self.find(asset_id, who) {
            Some(i) => {
                self.entries.set(i, (*asset_id, *who, amount));
            },
            None => {
                self.entries.push((*asset_id, *who, amount));
            },
        }
        self.balances = Ghost(self.balances@.insert(key@, amount.value()));
        proof {
            let m = self.balances@;
            assert forall|k: (Address, Account)| #[trigger] m.contains_key(k) implies exists|
                i: int,
            |
                0 <= i < self.entries@.len() && (self.entries@[i].0, self.entries@[i].1) == k by {
                if k == key@ {
                    let j = self.entries@.len() - 1;
                    if old(self).balances@.contains_key(k) {
                        let i0 = choose|i: int|
                            0 <= i < old(self).entries@.len() && (
                                old(self).entries@[i].0,
                                old(self).entries@[i].1,
                            ) == k;
                        assert((self.entries@[i0].0, self.entries@[i0].1) == k);
                    } else {
                        assert((self.entries@[j].0, self.entries@[j].1) == k);
                    }
                } else {
                    let i0 = choose|i: int|
                        0 <= i < old(self).entries@.len() && (
                            old(self).entries@[i].0,
                            old(self).entries@[i].1,
                        ) == k;
                    assert((self.entries@[i0].0, self.entries@[i0].1) == k);
                }
            }
        }
    }

    fn record(&mut self, op: Ghost<LedgerOp>)
        requires
            old(self).wf(),
        ensures
            final(self).wf(),
            final(self).entries@ == old(self).entries@,
            final(self).balances == old(self).balances,
            final(self).ops@ == old(self).ops@.push(op@),
    {
        self.ops = Ghost(self.ops@.push(op@));
        assert(self.entries@ == old(self).entries@);
        assert(forall|k: (Address, Account)| #[trigger] self.balances@.contains_key(k) ==> old(self).balances@.contains_key(k));
    }

    /// Credits `amount` to `who` without recording a mint: how balances come
    /// to be before the bridge runs.
    pub fn deposit(&mut self, asset_id: &Address, who: &Account, amount: &Amount) -> (r: Result<
        (),
        LedgerError,
    >)
        requires
            old(self).wf(),
        ensures
            final(self).wf(),
            final(self).spec_journal() == old(self).spec_journal(),
            credit_post(*old(self), *final(self), *asset_id, *who, *amount, r),
    {
        self.credit(asset_id, who, amount)
    }

    fn credit(&mut self, asset_id: &Address, who: &Account, amount: &Amount) -> (r: Result<
        (),
        LedgerError,
    >)
        requires
            old(self).wf(),
        ensures
            final(self).wf(),
            final(self).ops == old(self).ops,
            credit_post(*old(self), *final(self), *asset_id, *who, *amount, r),
    {
        let current = self.balance_of(asset_id, who);
        match current.checked_add(amount) {
            Some(sum) => {
                self.set_balance(asset_id, who, sum);
                Ok(())
            },
            None => Err(LedgerError::Overflow),
        }
    }

    /// Takes `amount` from `who`, recording the burn, if the balance covers it.
    pub fn burn_balance(&mut self, asset_id: &Address, who: &Account, amount: &Amount) -> (r:
        Result<(), LedgerError>)
        requires
            old(self).wf(),
        ensures
            final(self).wf(),
            r is Ok <==> amount.value() <= old(self).balance_spec(*asset_id, *who),
            r is Ok ==> final(self).balance_spec(*asset_id, *who) == old(self).balance_spec(
                *asset_id,
                *who,
            ) - amount.value(),
            r is Ok ==> final(self).spec_journal() == old(self).spec_journal().push(
                LedgerOp::Burn(*asset_id, *who, *amount),
            ),
            r is Err ==> r == Err::<(), LedgerError>(LedgerError::InsufficientBalance)
                && final(self).spec_journal() == old(self).spec_journal(),
            forall|a: Address, w: Account|
                (a, w) != (*asset_id, *who) || r is Err ==> final(self).balance_spec(a, w) == old(
                    self,
                ).balance_spec(a, w),
    {
        let current = self.balance_of(asset_id, who);
        match current.checked_sub(amount) {
            Some(rest) => {
                self.set_balance(asset_id, who, rest);
                self.record(Ghost(LedgerOp::Burn(*asset_id, *who, *amount)));
                Ok(())
            },
            None => Err(LedgerError::InsufficientBalance),
        }
    }

    /// Credits `amount` to `who`, recording the mint, if the sum fits.
    pub fn mint_balance(&mut self, asset_id: &Address, who: &Account, amount: &Amount) -> (r:
        Result<(), LedgerError>)
        requires
            old(self).wf(),
        ensures
            final(self).wf(),
            credit_post(*old(self), *final(self), *asset_id, *who, *amount, r),
            r is Ok ==> final(self).spec_journal() == old(self).spec_journal().push(
                LedgerOp::Mint(*asset_id, *who, *amount),
            ),
            r is Err ==> final(self).spec_journal() == old(self).spec_journal(),
    {
        let r = self.credit(asset_id, who, amount);
        if r.is_ok() {
            self.record(Ghost(LedgerOp::Mint(*asset_id, *who, *amount)));
        }
        r
    }
}

impl Ledger for MemoryLedger {
    open spec fn inv(&self) -> bool {
        self.wf()
    }

    open spec fn journal(&self) -> Seq<LedgerOp> {
        self.spec_journal()
    }

    open spec fn balance(&self, asset_id: Address, who: Account) -> nat {
        self.balance_spec(asset_id, who)
    }

    /// A burn is refused exactly where the balance does not cover it.
    open spec fn burn_outcome(&self, asset_id: Address, who: Account, amount: Amount) -> Result<
        (),
        LedgerError,
    > {
        if amount.value() <= self.balance_spec(asset_id, who) {
            Ok(())
        } else {
            Err(LedgerError::InsufficientBalance)
        }
    }

    /// A mint is refused exactly where the balance would pass 256 bits.
    open spec fn mint_outcome(&self, asset_id: Address, who: Account, amount: Amount) -> Result<
        (),
        LedgerError,
    > {
        if self.balance_spec(asset_id, who) + amount.value() < crate::arith::amount_bound() {
            Ok(())
        } else {
            Err(LedgerError::Overflow)
        }
    }

    fn burn(&mut self, asset_id: &Address, who: &Account, amount: &Amount) -> (r: Result<
        (),
        LedgerError,
    >) {
        match self.burn_balance(asset_id, who, amount) {
            Ok(()) => Ok(()),
            Err(e) => Err(e),
        }
    }

    fn mint(&mut self, asset_id: &Address, who: &Account, amount: &Amount) -> (r: Result<
        (),
        LedgerError,
    >) {
        match self.mint_balance(asset_id, who, amount) {
            Ok(()) => Ok(()),
            Err(e) => Err(e),
        }
    }
}

/// What a credit does: the sum if it fits in 256 bits, else nothing.
pub open spec fn credit_post(
    before: MemoryLedger,
    after: MemoryLedger,
    asset_id: Address,
    who: Account,
    amount: Amount,
    r: Result<(), LedgerError>,
) -> bool {
    let sum = before.balance_spec(asset_id, who) + amount.value();
    &&& r is Ok <==> sum < crate::arith::amount_bound()
    &&& r is Ok ==> after.balance_spec(asset_id, who) == sum
    &&& r is Err ==> r == Err::<(), LedgerError>(LedgerError::Overflow)
    &&& forall|a: Address, w: Account|
        (a, w) != (asset_id, who) || r is Err ==> after.balance_spec(a, w) == before.balance_spec(a, w)
}

/// Whether two accounts are the same.
fn account_equals(a: &Account, b: &Account) -> (r: bool)
    ensures
        r == (*a == *b),
{
    let mut i: usize = 0;
    while i < 32
        invariant
            i <= 32,
            forall|j: int| 0 <= j < i ==> a.bytes@[j] == b.bytes@[j],
        decreases 32 - i,
    {
        if a.bytes[i] != b.bytes[i] {
            return false;
        }
        i = i + 1;
    }
    assert(a.bytes =~= b.bytes);
    true
}

proof fn lemma_zero_amount(a: Amount)
    requires
        forall|i: int| 0 <= i < 32 ==> a.bytes@[i] == 0u8,
    ensures
        a.value() == 0,
{
    lemma_zero_prefix_value(a.bytes@, 32);
    assert(a.bytes@.subrange(0, 32) =~= a.bytes@);
}

proof fn lemma_zero_prefix_value(s: Seq<u8>, n: int)
    requires
        0 <= n <= s.len(),
        forall|i: int| 0 <= i < n ==> s[i] == 0u8,
    ensures
        crate::types::be_value(s.subrange(0, n)) == 0,
    decreases n,
{
    if n > 0 {
        lemma_zero_prefix_value(s, n - 1);
        assert(s.subrange(0, n).drop_last() =~= s.subrange(0, n - 1));
    }
}

} // verus!
