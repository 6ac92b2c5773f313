//! Plain values that travel through the bridge: remote addresses, local
//! accounts and 256-bit amounts.
use vstd::prelude::*;

verus! {

/// A 160-bit address on the remote chain. As an asset identifier, the zero
/// address names the native coin and any other value names a token contract.
#[derive(Clone, Copy, Debug, PartialEq, Eq)]
pub struct Address {
    pub bytes: [u8; 20],
}

/// The identifier of an asset class.
pub type AssetId = Address;

/// The stable on-chain identity of a bridge application.
pub type AppId = Address;

/// A 32-byte account on the local chain.
#[derive(Clone, Copy, Debug, PartialEq, Eq)]
pub struct Account {
    pub bytes: [u8; 32],
}

/// A 256-bit unsigned quantity, held as 32 big-endian bytes.
#[derive(Clone, Copy, Debug, PartialEq, Eq)]
pub struct Amount {
    pub bytes: [u8; 32],
}

/// The number that a big-endian byte string denotes.
pub open spec fn be_value(s: Seq<u8>) -> nat
    decreases s.len(),
{
    if s.len() == 0 {
        0
    } else {
        be_value(s.drop_last()) * 256 + s.last() as nat
    }
}

/// The asset id of the native coin.
pub open spec fn native_asset() -> Address {
    Address { bytes: vstd::array::spec_array_fill_for_copy_type::<u8, 20>(0u8) }
}

/// The native asset is the one address whose bytes are all zero.
pub proof fn lemma_native_asset(a: Address)
    ensures
        native_asset().is_zero_spec(),
        a.is_zero_spec() <==> a == native_asset(),
{
    broadcast use vstd::array::axiom_spec_array_fill_for_copy_type;
    if a.is_zero_spec() {
        assert(a.bytes =~= native_asset().bytes);
    }
}

impl Address {
    pub open spec fn is_zero_spec(self) -> bool {
        forall|i: int| 0 <= i < 20 ==> self.bytes@[i] == 0u8
    }

    /// The zero address.
    pub fn zero() -> (r: Address)
        ensures
            r == native_asset(),
            r.is_zero_spec(),
    {
        let r = Address { bytes: [0u8; 20] };
        proof {
            lemma_native_asset(r);
        }
        r
    }

    /// Whether every byte of the address is zero, that is, whether it is the
    /// native asset.
    pub fn is_zero(&self) -> (r: bool)
        ensures
            r == self.is_zero_spec(),
            r == (*self == native_asset()),
    {
        let mut i: usize = 0;
        while i < 20
            invariant
                i <= 20,
                forall|j: int| 0 <= j < i ==> self.bytes@[j] == 0u8,
            decreases 20 - i,
        {
            if self.bytes[i] != 0 {
                proof {
                    lemma_native_asset(*self);
                    assert(!self.is_zero_spec());
                }
                return false;
            }
            i = i + 1;
        }
        proof {
            assert(self.is_zero_spec());
            lemma_native_asset(*self);
        }
        true
    }

    /// Whether two addresses are the same.
    pub fn equals(&self, other: &Address) -> (r: bool)
        ensures
            r == (*self == *other),
    {
        let mut i: usize = 0;
        while i < 20
            invariant
                i <= 20,
                forall|j: int| 0 <= j < i ==> self.bytes@[j] == other.bytes@[j],
            decreases 20 - i,
        {
            if self.bytes[i] != other.bytes[i] {
                return false;
            }
            i = i + 1;
        }
        assert(self.bytes@ =~= other.bytes@);
        assert(self.bytes =~= other.bytes);
        true
    }

    pub fn from_bytes(bytes: [u8; 20]) -> (r: Address)
        ensures
            r.bytes == bytes,
    {
        Address { bytes }
    }
}

impl Account {
    pub fn from_bytes(bytes: [u8; 32]) -> (r: Account)
        ensures
            r.bytes == bytes,
    {
        Account { bytes }
    }
}

impl Amount {
    /// The number this amount stands for.
    pub open spec fn value(self) -> nat {
        be_value(self.bytes@)
    }

    pub fn from_bytes(bytes: [u8; 32]) -> (r: Amount)
        ensures
            r.bytes == bytes,
    {
        Amount { bytes }
    }
}

} // verus!
