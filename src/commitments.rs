//! The commitment log: an append-only sink of outbound payloads, keyed by the
//! identity of the application that produced them, read later by a relayer.
use vstd::prelude::*;
use crate::types::Address;

verus! {

/// A sink for outbound payloads.
pub trait Commitments {
    /// The entries appended so far, oldest first.
    spec fn entries(&self) -> Seq<(Address, Seq<u8>)>;

    fn add(&mut self, address: Address, payload: Vec<u8>)
        ensures
            final(self).entries() == old(self).entries().push((address, payload@)),
    ;
}

/// A commitment log held in memory.
pub struct CommitmentLog {
    items: Vec<(Address, Vec<u8>)>,
}

impl CommitmentLog {
    pub closed spec fn view_entries(&self) -> Seq<(Address, Seq<u8>)> {
        Seq::new(self.items@.len(), |i: int| (self.items@[i].0, self.items@[i].1@))
    }

    pub fn new() -> (r: CommitmentLog)
        ensures
            r.view_entries() == Seq::<(Address, Seq<u8>)>::empty(),
    {
        let r = CommitmentLog { items: Vec::new() };
        assert(r.view_entries() =~= Seq::<(Address, Seq<u8>)>::empty());
        r
    }

    /// The number of entries.
    pub fn len(&self) -> (r: usize)
        ensures
            r == self.view_entries().len(),
    {
        self.items.len()
    }

    /// The application identity of the entry at `index`.
    pub fn address_at(&self, index: usize) -> (r: Address)
        requires
            index < self.view_entries().len(),
        ensures
            r == self.view_entries()[index as int].0,
    {
        self.items[index].0
    }

    /// A copy of the payload of the entry at `index`.
    pub fn payload_at(&self, index: usize) -> (r: Vec<u8>)
        requires
            index < self.view_entries().len(),
        ensures
            r@ == self.view_entries()[index as int].1,
    {
        let src = &self.items[index].1;
        let mut out: Vec<u8> = Vec::new();
        let mut i: usize = 0;
        while i < src.len()
            invariant
                i <= src@.len(),
                out@ == src@.subrange(0, i as int),
            decreases src@.len() - i,
        {
            out.push(src[i]);
            i = i + 1;
            assert(src@.subrange(0, i as int) =~= src@.subrange(0, i - 1) + seq![src@[i - 1]]);
        }
        assert(src@.subrange(0, src@.len() as int) =~= src@);
        out
    }
}

impl Commitments for CommitmentLog {
    open spec fn entries(&self) -> Seq<(Address, Seq<u8>)> {
        self.view_entries()
    }

    fn add(&mut self, address: Address, payload: Vec<u8>) {
        let ghost p = payload@;
        self.items.push((address, payload));
        assert(self.view_entries() =~= old(self).view_entries().push((address, p)));
    }
}

} // verus!
