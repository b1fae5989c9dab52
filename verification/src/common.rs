//! What every ledger shares: the derivation of new identifiers, and one
//! staging queue.

use crate::ringbuffer::{Ring, RingBuffer, RingBufferTrait, RingBufferTransient};
use crate::utilities::{AccountId, BufferIndex, Did, ValueStruct};
use vstd::bytes::{spec_u64_to_le_bytes, u64_to_le_bytes};
use vstd::prelude::*;

verus! {

/// The BLAKE2b digest of `data`, 32 bytes long.
pub uninterp spec fn blake2_256_digest(data: Seq<u8>) -> Seq<u8>;

/// The bytes an identifier is derived from: the seed, then the account and
/// the nonce, each as eight bytes, lowest first.
pub open spec fn did_preimage(seed: Seq<u8>, from: AccountId, nonce: u64) -> Seq<u8> {
    seed + spec_u64_to_le_bytes(from) + spec_u64_to_le_bytes(nonce)
}

/// The identifier whose bytes are `bytes`. Meant for 32 bytes.
pub open spec fn did_from(bytes: Seq<u8>) -> Did {
    choose|d: Did| d.did@ == bytes
}

/// The identifier derived from the seed, the account and the nonce: the
/// digest of their bytes.
pub open spec fn new_did(seed: Seq<u8>, from: AccountId, nonce: u64) -> Did {
    did_from(blake2_256_digest(did_preimage(seed, from, nonce)))
}

/// Puts the bytes at the end of `buffer`.
fn append_bytes(buffer: &mut Vec<u8>, bytes: &[u8])
    ensures
        final(buffer)@ == old(buffer)@ + bytes@,
{
    let mut i: usize = 0;
    proof {
        assert(bytes@.take(0) =~= Seq::<u8>::empty());
        assert(buffer@ + bytes@.take(0) =~= buffer@);
    }
    while i < bytes.len()
        invariant
            i <= bytes@.len(),
            buffer@ == old(buffer)@ + bytes@.take(i as int),
        decreases bytes@.len() - i,
    {
        buffer.push(bytes[i]);
        proof {
            assert(bytes@.take(i + 1) =~= bytes@.take(i as int).push(bytes@[i as int]));
            assert(old(buffer)@ + bytes@.take(i + 1) =~= (old(buffer)@ + bytes@.take(
                i as int,
            )).push(bytes@[i as int]));
        }
        i += 1;
    }
    proof {
        assert(bytes@.take(i as int) =~= bytes@);
    }
}

/// The bytes that an identifier is derived from: the encoding of the seed,
/// the account and the nonce, one after the other. The seed stands as it is,
/// without a length before it, and each number as its eight bytes, lowest
/// first.
pub fn encode_seed_account_nonce(seed: &[u8; 32], from: AccountId, nonce: u64) -> (r: Vec<u8>)
    ensures
        r@ == did_preimage(seed@, from, nonce),
{
    let mut r: Vec<u8> = Vec::new();
    append_bytes(&mut r, seed.as_slice());
    let from_bytes = u64_to_le_bytes(from);
    append_bytes(&mut r, from_bytes.as_slice());
    let nonce_bytes = u64_to_le_bytes(nonce);
    append_bytes(&mut r, nonce_bytes.as_slice());
    proof {
        assert(Seq::<u8>::empty() + seed@ =~= seed@);
    }
    r
}

/// Calls `sp_io::hashing::blake2_256`. The contract claims only that the
/// digest depends on the bytes hashed and on nothing else.
#[verifier::external_body]
fn blake2_256(data: &Vec<u8>) -> (r: [u8; 32])
    ensures
        r@ == blake2_256_digest(data@),
{
    sp_io::hashing::blake2_256(data.as_slice())
}

/// Derives the identifier of a new entity from the host's random seed, the
/// account that creates it and that account's nonce.
pub fn generate_did(seed: &[u8; 32], from: AccountId, nonce: u64) -> (r: Did)
    ensures
        r == new_did(seed@, from, nonce),
        r.did@ == blake2_256_digest(did_preimage(seed@, from, nonce)),
{
    let encoded = encode_seed_account_nonce(seed, from, nonce);
    let did = blake2_256(&encoded);
    let r = Did { did };
    proof {
        let d = new_did(seed@, from, nonce);
        assert(d.did@ == r.did@);
        assert(d.did =~= r.did);
    }
    r
}

/// What the module reports to the host.
#[derive(Clone, Copy, Debug, PartialEq, Eq)]
pub enum Event {
    GenerateDid(AccountId, u64, Did),
    Popped(u32, bool),
}

/// The integers as entries of a queue, each with the flag `boolean`.
pub open spec fn flagged(integers: Seq<u32>, boolean: bool) -> Seq<ValueStruct> {
    Seq::new(integers.len(), |i: int| ValueStruct { integer: integers[i], boolean })
}

/// Opens the buffer, pushes one item and closes the buffer.
pub fn push_one(buffer: &mut RingBuffer<ValueStruct>, item: ValueStruct)
    ensures
        final(buffer)@ == old(buffer)@.push(item),
        final(buffer)@.filled(),
{
    let mut taken = RingBuffer::new();
    core::mem::swap(buffer, &mut taken);
    let mut queue = RingBufferTransient::new(taken);
    queue.push(item);
    let mut taken = queue.close();
    core::mem::swap(buffer, &mut taken);
}

/// Opens the buffer, pushes the integers in order, each with the flag
/// `boolean`, and closes the buffer.
pub fn push_each(buffer: &mut RingBuffer<ValueStruct>, integers: &Vec<u32>, boolean: bool)
    ensures
        final(buffer)@ == old(buffer)@.push_all(flagged(integers@, boolean)),
        final(buffer)@.filled(),
{
    let mut taken = RingBuffer::new();
    core::mem::swap(buffer, &mut taken);
    let mut queue = RingBufferTransient::new(taken);
    let mut i: usize = 0;
    proof {
        assert(flagged(integers@, boolean).take(0) =~= Seq::<ValueStruct>::empty());
    }
    while i < integers.len()
        invariant
            i <= integers@.len(),
            queue.ring() == old(buffer)@.push_all(flagged(integers@, boolean).take(i as int)),
            queue.ring().filled(),
        decreases integers@.len() - i,
    {
        queue.push(ValueStruct { integer: integers[i], boolean });
        proof {
            let all = flagged(integers@, boolean);
            assert(all.take(i + 1).drop_last() =~= all.take(i as int));
            assert(all.take(i + 1).last() == ValueStruct { integer: integers@[i as int], boolean });
        }
        i += 1;
    }
    proof {
        let all = flagged(integers@, boolean);
        assert(all.take(i as int) =~= all);
    }
    let mut taken = queue.close();
    core::mem::swap(buffer, &mut taken);
}

/// Opens the buffer, pops the oldest item and closes the buffer.
pub fn pop_one(buffer: &mut RingBuffer<ValueStruct>) -> (r: Option<ValueStruct>)
    ensures
        final(buffer)@ == old(buffer)@.pop(),
        final(buffer)@.filled(),
        r == if old(buffer)@.queue().len() > 0 {
            Some(old(buffer)@.queue()[0])
        } else {
            None
        },
{
    let mut taken = RingBuffer::new();
    core::mem::swap(buffer, &mut taken);
    let mut queue = RingBufferTransient::new(taken);
    let popped = queue.pop();
    let mut taken = queue.close();
    core::mem::swap(buffer, &mut taken);
    popped
}

/// The state of the module: the identifier generated last, and the queue.
pub struct Module {
    gen_did: Did,
    buffer: RingBuffer<ValueStruct>,
}

impl Module {
    /// The identifier generated last.
    pub closed spec fn spec_gen_did(&self) -> Did {
        self.gen_did
    }

    /// The queue as a ring: its slots and its bounds.
    pub closed spec fn ring(&self) -> Ring<ValueStruct> {
        self.buffer@
    }

    /// The state before anything happened: an all-zero identifier and an
    /// empty queue.
    pub fn new() -> (r: Self)
        ensures
            r.spec_gen_did().did@ == Seq::new(32, |i: int| 0u8),
            r.ring() == Ring::<ValueStruct>::empty(),
            r.ring().filled(),
    {
        let r = Module { gen_did: Did { did: [0u8; 32] }, buffer: RingBuffer::new() };
        assert(r.gen_did.did@ =~= Seq::new(32, |i: int| 0u8));
        r
    }

    /// The identifier generated last.
    #[verifier::when_used_as_spec(spec_gen_did)]
    pub fn gen_did(&self) -> (r: Did)
        ensures
            r == self.spec_gen_did(),
    {
        self.gen_did
    }

    /// Generates an identifier for `sender` and `nonce`, keeps it as the one
    /// generated last, and reports it.
    pub fn generate_did(&mut self, seed: &[u8; 32], sender: AccountId, nonce: u64) -> (r: Event)
        ensures
            final(self).spec_gen_did() == new_did(seed@, sender, nonce),
            r == Event::GenerateDid(sender, nonce, final(self).spec_gen_did()),
            final(self).ring() == old(self).ring(),
    {
        let did = generate_did(seed, sender, nonce);
        self.gen_did = did;
        Event::GenerateDid(sender, nonce, did)
    }

    /// Pushes one item onto the queue. A full queue loses its oldest item.
    pub fn add_to_queue(&mut self, id: u32, integer: u32, boolean: bool)
        ensures
            final(self).ring() == old(self).ring().push((ValueStruct { integer, boolean })),
            final(self).ring().filled(),
            final(self).spec_gen_did() == old(self).spec_gen_did(),
    {
        push_one(&mut self.buffer, ValueStruct { integer, boolean });
    }

    /// Pushes the integers onto the queue in order, each with the flag
    /// `boolean`.
    pub fn add_multiple(&mut self, id: u32, integers: Vec<u32>, boolean: bool)
        ensures
            final(self).ring() == old(self).ring().push_all(flagged(integers@, boolean)),
            final(self).ring().filled(),
            final(self).spec_gen_did() == old(self).spec_gen_did(),
    {
        push_each(&mut self.buffer, &integers, boolean);
    }

    /// Pops the oldest item off the queue and reports it. Nothing happens to
    /// an empty queue.
    pub fn pop_from_queue(&mut self, id: u32) -> (r: Option<Event>)
        ensures
            final(self).ring() == old(self).ring().pop(),
            final(self).ring().filled(),
            final(self).spec_gen_did() == old(self).spec_gen_did(),
            r == if old(self).ring().queue().len() > 0 {
                Some(
                    Event::Popped(
                        old(self).ring().queue()[0].integer,
                        old(self).ring().queue()[0].boolean,
                    ),
                )
            } else {
                None
            },
    {
        match pop_one(&mut self.buffer) {
            Some(value) => Some(Event::Popped(value.integer, value.boolean)),
            None => None,
        }
    }

    /// The bounds of the queue among the slots: the index of the oldest item
    /// and the index one past the newest.
    pub fn get_buffer_range(&self, id: u32) -> (r: (BufferIndex, BufferIndex))
        ensures
            r == self.ring().bounds,
            self.ring().filled(),
    {
        self.buffer.range()
    }

    /// What the slot at `index` holds; an empty slot reads as zero and false.
    pub fn get_buffer_value(&self, id: u32, index: BufferIndex) -> (r: ValueStruct)
        ensures
            r == if self.ring().slots.contains_key(index) {
                self.ring().slots[index]
            } else {
                ValueStruct { integer: 0, boolean: false }
            },
    {
        match self.buffer.value(index) {
            Some(value) => *value,
            None => ValueStruct { integer: 0, boolean: false },
        }
    }
}

} // verus!
