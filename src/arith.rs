//! Checked addition and subtraction of 256-bit amounts, byte by byte.
use vstd::prelude::*;
use crate::types::{be_value, Amount};

verus! {

/// 256 to the power `n`.
pub open spec fn pow256(n: nat) -> nat
    decreases n,
{
    if n == 0 {
        1
    } else {
        256 * pow256((n - 1) as nat)
    }
}

/// The largest amount plus one.
pub open spec fn amount_bound() -> nat {
    pow256(32)
}

/// The first byte of a big-endian string weighs 256 to the power of the
/// number of bytes after it.
pub proof fn lemma_be_prepend(s: Seq<u8>)
    requires
        s.len() > 0,
    ensures
        be_value(s) == s[0] as nat * pow256((s.len() - 1) as nat) + be_value(
            s.subrange(1, s.len() as int),
        ),
    decreases s.len(),
{
    if s.len() == 1 {
        assert(s.drop_last() =~= Seq::<u8>::empty());
        assert(s.subrange(1, 1) =~= Seq::<u8>::empty());
        assert(be_value(s) == be_value(s.drop_last()) * 256 + s.last() as nat);
        assert(pow256(0) == 1);
        assert(be_value(s) == s[0] as nat * pow256(0) + 0);
    } else {
        let dl = s.drop_last();
        lemma_be_prepend(dl);
        let tail = s.subrange(1, s.len() as int);
        assert(tail.drop_last() =~= dl.subrange(1, dl.len() as int));
        assert(tail.last() == s.last());
        let p = pow256((s.len() - 2) as nat);
        assert(pow256((s.len() - 1) as nat) == 256 * p);
        let c = s[0] as nat;
        let v = be_value(dl.subrange(1, dl.len() as int));
        assert(be_value(s) == be_value(dl) * 256 + s.last() as nat);
        assert(be_value(tail) == be_value(tail.drop_last()) * 256 + tail.last() as nat);
        assert(dl[0] == s[0]);
        assert(be_value(dl) == c * p + v);
        assert(be_value(tail) == v * 256 + s.last() as nat);
        assert((c * p + v) * 256 == c * (256 * p) + v * 256) by (nonlinear_arith);
        assert(be_value(s) == c * (256 * p) + be_value(tail));
    }
}

/// A string of `n` bytes denotes less than 256 to the power `n`.
pub proof fn lemma_be_bound(s: Seq<u8>)
    ensures
        be_value(s) < pow256(s.len()),
    decreases s.len(),
{
    if s.len() > 0 {
        lemma_be_bound(s.drop_last());
        let v = be_value(s.drop_last());
        let p = pow256((s.len() - 1) as nat);
        assert(v + 1 <= p);
        assert(v * 256 + 256 <= p * 256) by (nonlinear_arith)
            requires
                v + 1 <= p,
        ;
    }
}

proof fn lemma_suffix_step(a: Seq<u8>, i: int)
    requires
        0 <= i < a.len(),
    ensures
        be_value(a.subrange(i, a.len() as int)) == a[i] as nat * pow256(
            (a.len() - i - 1) as nat,
        ) + be_value(a.subrange(i + 1, a.len() as int)),
{
    let s = a.subrange(i, a.len() as int);
    lemma_be_prepend(s);
    assert(s.subrange(1, s.len() as int) =~= a.subrange(i + 1, a.len() as int));
}

impl Amount {
    /// `self - other`, or nothing where `other` is the greater.
    pub fn checked_sub(&self, other: &Amount) -> (r: Option<Amount>)
        ensures
            r is Some <==> self.value() >= other.value(),
            r matches Some(d) ==> d.value() + other.value() == self.value(),
    {
        let mut out: [u8; 32] = [0u8; 32];
        let mut borrow: u8 = 0;
        let mut i: usize = 32;
        proof {
            assert(self.bytes@.subrange(32, 32) =~= Seq::<u8>::empty());
            assert(other.bytes@.subrange(32, 32) =~= Seq::<u8>::empty());
            assert(out@.subrange(32, 32) =~= Seq::<u8>::empty());
        }
        while i > 0
            invariant
                i <= 32,
                borrow <= 1,
                out@.len() == 32,
                be_value(self.bytes@.subrange(i as int, 32)) + borrow as nat * pow256(
                    (32 - i) as nat,
                ) == be_value(other.bytes@.subrange(i as int, 32)) + be_value(
                    out@.subrange(i as int, 32),
                ),
            decreases i,
        {
            let ghost old_out = out@;
            let ghost old_borrow = borrow as nat;
            i = i - 1;
            let a: u16 = self.bytes[i] as u16;
            let b: u16 = other.bytes[i] as u16 + borrow as u16;
            if a >= b {
                out[i] = (a - b) as u8;
                borrow = 0;
            } else {
                out[i] = (a + 256 - b) as u8;
                borrow = 1;
            }
            proof {
                assert(out@.subrange(i + 1, 32) =~= old_out.subrange(i + 1, 32));
                lemma_suffix_step(self.bytes@, i as int);
                lemma_suffix_step(other.bytes@, i as int);
                lemma_suffix_step(out@, i as int);
                let p = pow256((32 - i - 1) as nat);
                assert(pow256((32 - i) as nat) == 256 * p);
                let x = a as int;
                let y = other.bytes@[i as int] as int;
                let z = out@[i as int] as int;
                assert(x - y - old_borrow == z - 256 * borrow);
                assert(x * p - y * p - old_borrow * p == z * p - borrow * (256 * p))
                    by (nonlinear_arith)
                    requires
                        x - y - old_borrow == z - 256 * borrow,
                ;
            }
        }
        proof {
            assert(self.bytes@.subrange(0, 32) =~= self.bytes@);
            assert(other.bytes@.subrange(0, 32) =~= other.bytes@);
            assert(out@.subrange(0, 32) =~= out@);
            lemma_be_bound(out@);
            lemma_be_bound(other.bytes@);
        }
        if borrow == 1 {
            None
        } else {
            Some(Amount { bytes: out })
        }
    }

    /// `self + other`, or nothing where the sum is beyond 256 bits.
    pub fn checked_add(&self, other: &Amount) -> (r: Option<Amount>)
        ensures
            r is Some <==> self.value() + other.value() < amount_bound(),
            r matches Some(s) ==> s.value() == self.value() + other.value(),
    {
        let mut out: [u8; 32] = [0u8; 32];
        let mut carry: u8 = 0;
        let mut i: usize = 32;
        proof {
            assert(self.bytes@.subrange(32, 32) =~= Seq::<u8>::empty());
            assert(other.bytes@.subrange(32, 32) =~= Seq::<u8>::empty());
            assert(out@.subrange(32, 32) =~= Seq::<u8>::empty());
        }
        while i > 0
            invariant
                i <= 32,
                carry <= 1,
                out@.len() == 32,
                be_value(self.bytes@.subrange(i as int, 32)) + be_value(
                    other.bytes@.subrange(i as int, 32),
                ) == be_value(out@.subrange(i as int, 32)) + carry as nat * pow256(
                    (32 - i) as nat,
                ),
            decreases i,
        {
            let ghost old_out = out@;
            let ghost old_carry = carry as nat;
            i = i - 1;
            let s: u16 = self.bytes[i] as u16 + other.bytes[i] as u16 + carry as u16;
            if s >= 256 {
                out[i] = (s - 256) as u8;
                carry = 1;
            } else {
                out[i] = s as u8;
                carry = 0;
            }
            proof {
                assert(out@.subrange(i + 1, 32) =~= old_out.subrange(i + 1, 32));
                lemma_suffix_step(self.bytes@, i as int);
                lemma_suffix_step(other.bytes@, i as int);
                lemma_suffix_step(out@, i as int);
                let p = pow256((32 - i - 1) as nat);
                assert(pow256((32 - i) as nat) == 256 * p);
                let x = self.bytes@[i as int] as int;
                let y = other.bytes@[i as int] as int;
                let z = out@[i as int] as int;
                assert(x + y + old_carry == z + 256 * carry);
                assert(x * p + y * p + old_carry * p == z * p + carry * (256 * p))
                    by (nonlinear_arith)
                    requires
                        x + y + old_carry == z + 256 * carry,
                ;
            }
        }
        proof {
            assert(self.bytes@.subrange(0, 32) =~= self.bytes@);
            assert(other.bytes@.subrange(0, 32) =~= other.bytes@);
            assert(out@.subrange(0, 32) =~= out@);
            lemma_be_bound(out@);
        }
        if carry == 1 {
            None
        } else {
            Some(Amount { bytes: out })
        }
    }
}

} // verus!
