//! The 32-byte words that every wire payload is made of: an account is
//! written as its 32 bytes, an address as twelve zero bytes followed by its
//! 20 bytes, an amount as its 32 big-endian bytes.
use vstd::prelude::*;
use crate::types::{Account, Address, Amount};

verus! {

/// The zero bytes in front of an address inside its word.
pub open spec fn address_padding() -> Seq<u8> {
    Seq::new(12, |i: int| 0u8)
}

pub open spec fn address_word(a: Address) -> Seq<u8> {
    address_padding() + a.bytes@
}

pub open spec fn account_word(a: Account) -> Seq<u8> {
    a.bytes@
}

pub open spec fn amount_word(a: Amount) -> Seq<u8> {
    a.bytes@
}

/// Whether the 32 bytes of `s` at `start` hold an address word, that is,
/// begin with twelve zero bytes.
pub open spec fn is_address_word_at(s: Seq<u8>, start: int) -> bool {
    &&& 0 <= start
    &&& start + 32 <= s.len()
    &&& forall|i: int| start <= i < start + 12 ==> s[i] == 0u8
}

/// Two addresses with the same word are the same address.
pub proof fn lemma_address_word_injective(a: Address, b: Address)
    requires
        address_word(a) == address_word(b),
    ensures
        a == b,
{
    assert(a.bytes@ =~= address_word(a).subrange(12, 32));
    assert(b.bytes@ =~= address_word(b).subrange(12, 32));
    assert(a.bytes =~= b.bytes);
}

pub proof fn lemma_account_word_injective(a: Account, b: Account)
    requires
        account_word(a) == account_word(b),
    ensures
        a == b,
{
    assert(a.bytes =~= b.bytes);
}

pub proof fn lemma_amount_word_injective(a: Amount, b: Amount)
    requires
        amount_word(a) == amount_word(b),
    ensures
        a == b,
{
    assert(a.bytes =~= b.bytes);
}

/// Appends 32 bytes to `out`.
pub fn append_bytes32(out: &mut Vec<u8>, a: &[u8; 32])
    ensures
        final(out)@ == old(out)@ + a@,
{
    let mut i: usize = 0;
    while i < 32
        invariant
            i <= 32,
            out@ == old(out)@ + a@.subrange(0, i as int),
        decreases 32 - i,
    {
        out.push(a[i]);
        i = i + 1;
        assert(a@.subrange(0, i as int) =~= a@.subrange(0, i - 1) + seq![a@[i - 1]]);
    }
    assert(a@.subrange(0, 32) =~= a@);
}

pub fn append_address_word(out: &mut Vec<u8>, a: &Address)
    ensures
        final(out)@ == old(out)@ + address_word(*a),
{
    let mut i: usize = 0;
    while i < 12
        invariant
            i <= 12,
            out@ == old(out)@ + address_padding().subrange(0, i as int),
        decreases 12 - i,
    {
        out.push(0u8);
        i = i + 1;
        assert(address_padding().subrange(0, i as int) =~= address_padding().subrange(0, i - 1)
            + seq![0u8]);
    }
    assert(address_padding().subrange(0, 12) =~= address_padding());
    let mut j: usize = 0;
    while j < 20
        invariant
            j <= 20,
            out@ == old(out)@ + address_padding() + a.bytes@.subrange(0, j as int),
        decreases 20 - j,
    {
        out.push(a.bytes[j]);
        j = j + 1;
        assert(a.bytes@.subrange(0, j as int) =~= a.bytes@.subrange(0, j - 1) + seq![
            a.bytes@[j - 1],
        ]);
    }
    assert(a.bytes@.subrange(0, 20) =~= a.bytes@);
    assert(out@ =~= old(out)@ + address_word(*a));
}

/// The 32 bytes of `b` at `start`.
pub fn read_bytes32(b: &[u8], start: usize) -> (r: [u8; 32])
    requires
        start + 32 <= b@.len(),
    ensures
        r@ == b@.subrange(start as int, start + 32),
{
    let mut r: [u8; 32] = [0u8; 32];
    let mut i: usize = 0;
    while i < 32
        invariant
            i <= 32,
            start + 32 <= b.len(),
            r@.len() == 32,
            forall|j: int| 0 <= j < i ==> r@[j] == b@[start + j],
        decreases 32 - i,
    {
        r[i] = b[start + i];
        i = i + 1;
    }
    assert(r@ =~= b@.subrange(start as int, start + 32));
    r
}

/// The address in the word of `b` at `start`, if that word begins with
/// twelve zero bytes.
pub fn read_address_word(b: &[u8], start: usize) -> (r: Option<Address>)
    requires
        start + 32 <= b@.len(),
    ensures
        r is Some <==> is_address_word_at(b@, start as int),
        r matches Some(a) ==> address_word(a) == b@.subrange(start as int, start + 32),
{
    let mut i: usize = 0;
    while i < 12
        invariant
            i <= 12,
            start + 32 <= b.len(),
            forall|j: int| start <= j < start + i ==> b@[j] == 0u8,
        decreases 12 - i,
    {
        if b[start + i] != 0 {
            return None;
        }
        i = i + 1;
    }
    let mut a: [u8; 20] = [0u8; 20];
    let mut k: usize = 0;
    while k < 20
        invariant
            k <= 20,
            start + 32 <= b.len(),
            a@.len() == 20,
            forall|j: int| 0 <= j < k ==> a@[j] == b@[start + 12 + j],
        decreases 20 - k,
    {
        a[k] = b[start + 12 + k];
        k = k + 1;
    }
    let addr = Address { bytes: a };
    assert(address_word(addr) =~= b@.subrange(start as int, start + 32));
    Some(addr)
}

} // verus!
