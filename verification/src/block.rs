//! Blocks: ordered containers of transactions sealed by a hash that
//! satisfies a difficulty predicate. This module owns the hash
//! computation and the proof-of-work search.

use crate::bytes::copy_bytes;
use crate::bytes::dec_of;
use crate::bytes::push_all;
use crate::bytes::spec_dec;
use crate::hashing::hex_of;
use crate::hashing::sha256;
use crate::hashing::sha256_of;
use crate::hashing::to_hex;
use crate::transaction::Transaction;
use crate::transaction::TransactionView;
use vstd::prelude::*;

verus! {

/// The mathematical value of a `Block`.
#[verifier::ext_equal]
pub struct BlockView {
    pub index: nat,
    pub previous_hash: Seq<u8>,
    pub timestamp: nat,
    pub transactions: Seq<TransactionView>,
    pub nonce: nat,
    pub hash: Seq<u8>,
    pub difficulty: nat,
}

/// A block of the chain. Constructed with `nonce = 0` and an empty
/// `hash`; mutated only by `seal`; immutable once sealed and appended.
#[derive(Debug)]
pub struct Block {
    pub index: u32,
    pub previous_hash: Vec<u8>,
    pub timestamp: u64,
    pub transactions: Vec<Transaction>,
    pub nonce: u64,
    pub hash: Vec<u8>,
    pub difficulty: u64,
}

impl View for Block {
    type V = BlockView;

    open spec fn view(&self) -> BlockView {
        BlockView {
            index: self.index as nat,
            previous_hash: self.previous_hash@,
            timestamp: self.timestamp as nat,
            transactions: self.transactions.deep_view(),
            nonce: self.nonce as nat,
            hash: self.hash@,
            difficulty: self.difficulty as nat,
        }
    }
}

impl DeepView for Block {
    type V = BlockView;

    open spec fn deep_view(&self) -> BlockView {
        self@
    }
}

/// The serialization of one transaction for hashing:
/// `sender + recipient + amount` with no delimiter, the amount in
/// decimal. Deliberately kept in this non-injective form.
pub open spec fn tx_ser(t: TransactionView) -> Seq<u8> {
    t.sender + t.recipient + spec_dec(t.amount)
}

/// The serializations of the transactions, concatenated in order.
pub open spec fn txs_ser(ts: Seq<TransactionView>) -> Seq<u8>
    decreases ts.len(),
{
    if ts.len() == 0 {
        Seq::empty()
    } else {
        tx_ser(ts[0]) + txs_ser(ts.drop_first())
    }
}

/// The bytes a block's hash is computed over: every field but the hash
/// itself, integers in decimal, concatenated without delimiters.
pub open spec fn hash_input(b: BlockView) -> Seq<u8> {
    spec_dec(b.index) + b.previous_hash + spec_dec(b.timestamp) + txs_ser(b.transactions)
        + spec_dec(b.nonce)
}

/// The hash a block with value `b` is owed: the SHA-256 digest of its
/// hash input, in lowercase hex.
pub open spec fn block_hash_of(b: BlockView) -> Seq<u8> {
    hex_of(sha256_of(hash_input(b)))
}

/// `b` with its nonce replaced.
pub open spec fn with_nonce(b: BlockView, nonce: nat) -> BlockView {
    BlockView { nonce, ..b }
}

/// The acceptance predicate of proof-of-work: the hash is non-empty and
/// its first `difficulty` bytes are all the hex character '0'.
pub open spec fn meets_difficulty(hash: Seq<u8>, difficulty: nat) -> bool {
    &&& hash.len() > 0
    &&& difficulty <= hash.len()
    &&& forall|i: int| 0 <= i < difficulty ==> hash[i] == 48u8
}

/// Decides `meets_difficulty` on a concrete hash.
pub fn check_difficulty(hash: &Vec<u8>, difficulty: u64) -> (r: bool)
    ensures
        r == meets_difficulty(hash@, difficulty as nat),
{
    if hash.len() == 0 {
        return false;
    }
    if difficulty > hash.len() as u64 {
        return false;
    }
    let bound = difficulty as usize;
    let mut i: usize = 0;
    while i < bound
        invariant
            bound == difficulty,
            bound <= hash@.len(),
            i <= bound,
            forall|j: int| 0 <= j < i ==> hash@[j] == 48u8,
        decreases bound - i,
    {
        if hash[i] != 48 {
            return false;
        }
        i += 1;
    }
    true
}

proof fn lemma_txs_ser_skip(ts: Seq<TransactionView>, i: int)
    requires
        0 <= i < ts.len(),
    ensures
        txs_ser(ts.skip(i)) == tx_ser(ts[i]) + txs_ser(ts.skip(i + 1)),
{
    let rest = ts.skip(i);
    assert(rest[0] == ts[i]);
    assert(rest.drop_first() =~= ts.skip(i + 1));
}

/// The serialization of one transaction, exactly as `tx_ser` describes.
fn serialize_transaction(t: &Transaction) -> (r: Vec<u8>)
    ensures
        r@ == tx_ser(t@),
{
    let mut out = copy_bytes(&t.sender);
    push_all(&mut out, &t.recipient);
    let amount = dec_of(t.amount);
    push_all(&mut out, &amount);
    out
}

/// The serialization of a transaction sequence, exactly as `txs_ser`
/// describes.
fn serialize_transactions(ts: &Vec<Transaction>) -> (r: Vec<u8>)
    ensures
        r@ == txs_ser(ts.deep_view()),
{
    let mut out: Vec<u8> = Vec::new();
    let mut i: usize = 0;
    proof {
        assert(ts.deep_view().skip(0) =~= ts.deep_view());
    }
    while i < ts.len()
        invariant
            i <= ts@.len(),
            ts.deep_view().len() == ts@.len(),
            txs_ser(ts.deep_view()) == out@ + txs_ser(ts.deep_view().skip(i as int)),
        decreases ts@.len() - i,
    {
        proof {
            lemma_txs_ser_skip(ts.deep_view(), i as int);
            assert(ts.deep_view()[i as int] == ts@[i as int]@);
        }
        let piece = serialize_transaction(&ts[i]);
        push_all(&mut out, &piece);
        proof {
            assert(txs_ser(ts.deep_view()) =~= out@ + txs_ser(ts.deep_view().skip(i + 1)));
        }
        i += 1;
    }
    proof {
        assert(ts.deep_view().skip(i as int) =~= Seq::<TransactionView>::empty());
        assert(txs_ser(ts.deep_view()) =~= out@);
    }
    out
}

/// The outcome of a cancelled proof-of-work search: the block was left
/// unsealed rather than given an invalid hash.
#[derive(Debug)]
pub struct SealCancelled;

impl Block {
    /// Constructs an unsealed block: `nonce = 0`, empty `hash`, created
    /// at time `now`.
    pub fn new(
        index: u32,
        previous_hash: Vec<u8>,
        transactions: Vec<Transaction>,
        difficulty: u64,
        now: u64,
    ) -> (b: Block)
        ensures
            b@ == (BlockView {
                index: index as nat,
                previous_hash: previous_hash@,
                timestamp: now as nat,
                transactions: transactions.deep_view(),
                nonce: 0,
                hash: Seq::empty(),
                difficulty: difficulty as nat,
            }),
    {
        let b = Block {
            index,
            previous_hash,
            timestamp: now,
            transactions,
            nonce: 0,
            hash: Vec::new(),
            difficulty,
        };
        proof {
            assert(b@.hash =~= Seq::<u8>::empty());
        }
        b
    }

    /// The hash the block would have with the given nonce.
    fn hash_for_nonce(&self, nonce: u64) -> (r: Vec<u8>)
        ensures
            r@ == block_hash_of(with_nonce(self@, nonce as nat)),
            r@.len() == 64,
    {
        let mut data = dec_of(self.index as u64);
        push_all(&mut data, &self.previous_hash);
        let rendered_timestamp = dec_of(self.timestamp);
        push_all(&mut data, &rendered_timestamp);
        let txs = serialize_transactions(&self.transactions);
        push_all(&mut data, &txs);
        let rendered_nonce = dec_of(nonce);
        push_all(&mut data, &rendered_nonce);
        proof {
            assert(data@ =~= hash_input(with_nonce(self@, nonce as nat)));
        }
        let digest = sha256(&data);
        to_hex(&digest)
    }

    /// The block's hash, a pure function of its fields other than the
    /// hash itself: the SHA-256 digest, in hex, of the decimal index,
    /// the previous hash, the decimal creation time, the serialized
    /// transactions and the decimal nonce, concatenated.
    pub fn calculate_hash(&self) -> (r: Vec<u8>)
        ensures
            r@ == block_hash_of(self@),
            r@.len() == 64,
    {
        let r = self.hash_for_nonce(self.nonce);
        proof {
            assert(with_nonce(self@, self@.nonce) =~= self@);
        }
        r
    }

    /// Searches nonces `0, 1, 2, ...` for the first whose hash meets the
    /// block's difficulty, giving up after `budget` attempts.
    fn find_nonce(&self, budget: u64) -> (r: Option<(u64, Vec<u8>)>)
        ensures
            match r {
                Some(found) => {
                    &&& found.0 < budget
                    &&& found.1@ == block_hash_of(with_nonce(self@, found.0 as nat))
                    &&& found.1@.len() == 64
                    &&& meets_difficulty(found.1@, self@.difficulty)
                    &&& forall|m: nat|
                        m < found.0 as nat ==> !meets_difficulty(
                            block_hash_of(with_nonce(self@, m)),
                            self@.difficulty,
                        )
                },
                None => forall|m: nat|
                    m < budget as nat ==> !meets_difficulty(
                        block_hash_of(with_nonce(self@, m)),
                        self@.difficulty,
                    ),
            },
    {
        let mut i: u64 = 0;
        while i < budget
            invariant
                i <= budget,
                forall|m: nat|
                    m < i as nat ==> !meets_difficulty(
                        block_hash_of(with_nonce(self@, m)),
                        self@.difficulty,
                    ),
            decreases budget - i,
        {
            let candidate = self.hash_for_nonce(i);
            if check_difficulty(&candidate, self.difficulty) {
                return Some((i, candidate));
            }
            i += 1;
        }
        None
    }

    /// The proof-of-work search. Tries nonces in increasing order from
    /// zero; on success the block holds the accepted nonce and hash, and
    /// the hash meets the block's difficulty. If no nonce below `budget`
    /// is accepted the search is cancelled and the block is unchanged —
    /// never sealed with an invalid hash.
    pub fn seal(&mut self, budget: u64) -> (r: Result<(), SealCancelled>)
        requires
            old(self)@.hash.len() == 0,
            old(self)@.nonce == 0,
        ensures
            final(self)@.index == old(self)@.index,
            final(self)@.previous_hash == old(self)@.previous_hash,
            final(self)@.timestamp == old(self)@.timestamp,
            final(self)@.transactions == old(self)@.transactions,
            final(self)@.difficulty == old(self)@.difficulty,
            match r {
                Ok(()) => {
                    &&& final(self)@.nonce < budget as nat
                    &&& final(self)@.hash == block_hash_of(final(self)@)
                    &&& final(self)@.hash.len() == 64
                    &&& meets_difficulty(final(self)@.hash, final(self)@.difficulty)
                    &&& forall|m: nat|
                        m < final(self)@.nonce ==> !meets_difficulty(
                            block_hash_of(with_nonce(old(self)@, m)),
                            old(self)@.difficulty,
                        )
                },
                Err(_) => {
                    &&& final(self)@ == old(self)@
                    &&& forall|m: nat|
                        m < budget as nat ==> !meets_difficulty(
                            block_hash_of(with_nonce(old(self)@, m)),
                            old(self)@.difficulty,
                        )
                },
            },
    {
        match self.find_nonce(budget) {
            Some((nonce, hash)) => {
                self.nonce = nonce;
                self.hash = hash;
                proof {
                    lemma_compute_hash_deterministic(with_nonce(old(self)@, self@.nonce), self@);
                }
                Ok(())
            },
            None => {
                proof {
                    assert(self@ =~= old(self)@);
                }
                Err(SealCancelled)
            },
        }
    }
}

/// Law: the block hash is a pure function of the hashed fields. Two
/// block values that agree on index, previous hash, creation time,
/// transactions and nonce are owed the same hash, however often it is
/// recomputed.
pub proof fn lemma_compute_hash_deterministic(b1: BlockView, b2: BlockView)
    requires
        b1.index == b2.index,
        b1.previous_hash == b2.previous_hash,
        b1.timestamp == b2.timestamp,
        b1.transactions == b2.transactions,
        b1.nonce == b2.nonce,
    ensures
        block_hash_of(b1) == block_hash_of(b2),
{
    assert(hash_input(b1) == hash_input(b2));
}

} // verus!
