//! Wire payloads of the native-coin application: three words, the local
//! account, the remote address and the amount, 96 bytes in all.
use vstd::prelude::*;
use crate::codec::{
    account_word, address_word, amount_word, append_address_word, append_bytes32,
    is_address_word_at, lemma_account_word_injective, lemma_address_word_injective,
    lemma_amount_word_injective, read_address_word, read_bytes32,
};
use crate::error::DecodeError;
use crate::types::{Account, Address, Amount};

verus! {

/// The length of an encoded payload.
pub const PAYLOAD_LEN: usize = 96;

/// A burn on the local chain, to be released on the remote chain.
#[derive(Clone, Copy, Debug, PartialEq, Eq)]
pub struct OutPayload {
    pub sender_addr: Account,
    pub recipient_addr: Address,
    pub amount: Amount,
}

/// A transfer from the remote chain, to be minted on the local chain.
#[derive(Clone, Copy, Debug, PartialEq, Eq)]
pub struct InPayload {
    pub sender_addr: Address,
    pub recipient_addr: Account,
    pub amount: Amount,
}

/// The layout shared by both directions: the local account, the remote
/// address, the amount.
pub open spec fn wire(account: Account, remote: Address, amount: Amount) -> Seq<u8> {
    account_word(account) + address_word(remote) + amount_word(amount)
}

/// Whether `s` has the layout of a payload: the right length, and twelve
/// zero bytes in front of the address.
pub open spec fn is_wire(s: Seq<u8>) -> bool {
    s.len() == 96 && is_address_word_at(s, 32)
}

impl OutPayload {
    pub open spec fn spec_encode(self) -> Seq<u8> {
        wire(self.sender_addr, self.recipient_addr, self.amount)
    }

    /// The inbound payload that carries the same account, address and amount.
    pub open spec fn mirrored(self) -> InPayload {
        InPayload {
            sender_addr: self.recipient_addr,
            recipient_addr: self.sender_addr,
            amount: self.amount,
        }
    }

    /// The canonical bytes of this payload.
    pub fn encode(&self) -> (r: Vec<u8>)
        ensures
            r@ == self.spec_encode(),
    {
        let mut out: Vec<u8> = Vec::new();
        append_bytes32(&mut out, &self.sender_addr.bytes);
        append_address_word(&mut out, &self.recipient_addr);
        append_bytes32(&mut out, &self.amount.bytes);
        proof {
            assert(out@ =~= self.spec_encode());
        }
        out
    }
}

impl InPayload {
    pub open spec fn spec_encode(self) -> Seq<u8> {
        wire(self.recipient_addr, self.sender_addr, self.amount)
    }

    /// Reads a payload. Exactly the byte strings that have the layout are
    /// accepted, and the payload read is the one whose encoding they are.
    pub fn decode(b: &[u8]) -> (r: Result<InPayload, DecodeError>)
        ensures
            r is Ok <==> is_wire(b@),
            r matches Ok(p) ==> p.spec_encode() == b@,
    {
        if b.len() != PAYLOAD_LEN {
            return Err(DecodeError {});
        }
        let recipient = read_bytes32(b, 0);
        let sender = match read_address_word(b, 32) {
            Some(a) => a,
            None => {
                return Err(DecodeError {});
            },
        };
        let amount = read_bytes32(b, 64);
        let p = InPayload {
            sender_addr: sender,
            recipient_addr: Account { bytes: recipient },
            amount: Amount { bytes: amount },
        };
        proof {
            assert(b@ =~= b@.subrange(0, 32) + b@.subrange(32, 64) + b@.subrange(64, 96));
            assert(p.spec_encode() =~= b@);
        }
        Ok(p)
    }
}

/// The payload whose encoding `s` is. Meaningful where `is_wire(s)`.
pub open spec fn decoded(s: Seq<u8>) -> InPayload {
    choose|p: InPayload| p.spec_encode() == s
}

/// A payload is what its own encoding decodes to.
pub proof fn lemma_decoded(p: InPayload)
    ensures
        decoded(p.spec_encode()) == p,
{
    let q = decoded(p.spec_encode());
    assert(q.spec_encode() == p.spec_encode());
    lemma_encode_injective(q, p);
}

/// Every encoded payload has the layout that decoding accepts.
pub proof fn lemma_wire_is_decodable(account: Account, remote: Address, amount: Amount)
    ensures
        is_wire(wire(account, remote, amount)),
{
    let s = wire(account, remote, amount);
    assert forall|i: int| 32 <= i < 44 implies s[i] == 0u8 by {
        assert(s[i] == address_word(remote)[i - 32]);
    }
}

/// The wire layout is one to one: equal bytes mean equal fields.
pub proof fn lemma_wire_injective(
    a1: Account,
    r1: Address,
    m1: Amount,
    a2: Account,
    r2: Address,
    m2: Amount,
)
    requires
        wire(a1, r1, m1) == wire(a2, r2, m2),
    ensures
        a1 == a2,
        r1 == r2,
        m1 == m2,
{
    let s = wire(a1, r1, m1);
    let t = wire(a2, r2, m2);
    assert(account_word(a1) =~= s.subrange(0, 32));
    assert(account_word(a2) =~= t.subrange(0, 32));
    assert(address_word(r1) =~= s.subrange(32, 64));
    assert(address_word(r2) =~= t.subrange(32, 64));
    assert(amount_word(m1) =~= s.subrange(64, 96));
    assert(amount_word(m2) =~= t.subrange(64, 96));
    lemma_account_word_injective(a1, a2);
    lemma_address_word_injective(r1, r2);
    lemma_amount_word_injective(m1, m2);
}

/// Round trip: the bytes of an outbound payload decode, and the one payload
/// they decode to carries the same account, remote address and amount.
pub proof fn lemma_round_trip(p: OutPayload, q: InPayload)
    ensures
        is_wire(p.spec_encode()),
        q.spec_encode() == p.spec_encode() <==> q == p.mirrored(),
{
    lemma_wire_is_decodable(p.sender_addr, p.recipient_addr, p.amount);
    if q.spec_encode() == p.spec_encode() {
        lemma_wire_injective(
            q.recipient_addr,
            q.sender_addr,
            q.amount,
            p.sender_addr,
            p.recipient_addr,
            p.amount,
        );
    }
}

/// An encoding cut short by one byte, or with one byte more, is refused.
pub proof fn lemma_truncated_or_extended_refused(p: InPayload, x: u8)
    ensures
        !is_wire(p.spec_encode().drop_last()),
        !is_wire(p.spec_encode().push(x)),
{
}

} // verus!

verus! {

/// Two inbound payloads with the same bytes are the same payload.
pub proof fn lemma_encode_injective(p: InPayload, q: InPayload)
    requires
        p.spec_encode() == q.spec_encode(),
    ensures
        p == q,
{
    lemma_wire_injective(
        p.recipient_addr,
        p.sender_addr,
        p.amount,
        q.recipient_addr,
        q.sender_addr,
        q.amount,
    );
}

} // verus!
