//! The chain: an append-only sequence of blocks, each linked to its
//! predecessor's hash, guarded by a validating append, together with the
//! difficulty controller that retargets proof-of-work from recent block
//! timestamps.

use crate::block::block_hash_of;
use crate::block::check_difficulty;
use crate::block::meets_difficulty;
use crate::block::with_nonce;
use crate::block::Block;
use crate::block::BlockView;
use crate::block::SealCancelled;
use crate::bytes::bytes_eq;
use crate::bytes::copy_bytes;
use crate::transaction::sig_of;
use crate::transaction::Transaction;
use crate::transaction::TransactionView;
use vstd::prelude::*;

verus! {

/// The tunable constants of the ledger, passed in at construction so
/// that callers can vary them.
#[derive(Clone, Copy, Debug)]
pub struct Config {
    /// Leading zero hex characters demanded of a block hash before the
    /// controller's first adjustment.
    pub base_difficulty: u64,
    /// How many blocks apart the controller samples timestamps.
    pub adjustment_interval: usize,
    /// The production pace the controller steers toward.
    pub target_seconds_per_block: u64,
    /// The unconditional reward minted for the miner of each block.
    pub mining_reward: u64,
}

impl Config {
    /// Well-formedness: the difficulty and the window are positive, and
    /// the window's expected duration leaves room to be doubled.
    pub open spec fn wf(self) -> bool {
        &&& 1 <= self.base_difficulty
        &&& 1 <= self.adjustment_interval
        &&& self.target_seconds_per_block as int * self.adjustment_interval as int * 2
            <= u64::MAX as int
    }
}

/// The sender recorded on every mining-reward transaction: the bytes of
/// `"NETWORK"`.
pub open spec fn network_sender() -> Seq<u8> {
    seq![78u8, 69u8, 84u8, 87u8, 79u8, 82u8, 75u8]
}

/// The bytes of `network_sender()`, as a vector.
pub fn network_sender_bytes() -> (v: Vec<u8>)
    ensures
        v@ == network_sender(),
{
    let mut v: Vec<u8> = Vec::new();
    v.push(78);
    v.push(69);
    v.push(84);
    v.push(87);
    v.push(79);
    v.push(82);
    v.push(75);
    proof {
        assert(v@ =~= network_sender());
    }
    v
}

/// The reward transaction minted for `miner` by a block created at time
/// `now`.
pub open spec fn spec_reward_tx(miner: Seq<u8>, reward: nat, now: nat) -> TransactionView {
    TransactionView {
        sender: network_sender(),
        recipient: miner,
        amount: reward,
        signature: sig_of(network_sender(), now),
        timestamp: now,
    }
}

/// Chain integrity: a well-formed chain starts at a genesis block with
/// no predecessor and the base difficulty, numbers its blocks by
/// position, links every block to the hash of its predecessor, and holds
/// only blocks whose 64-digit hash meets their own positive difficulty.
pub open spec fn chain_wf(blocks: Seq<BlockView>, cfg: Config) -> bool {
    &&& cfg.wf()
    &&& blocks.len() >= 1
    &&& blocks[0].previous_hash == Seq::<u8>::empty()
    &&& blocks[0].difficulty == cfg.base_difficulty
    &&& forall|i: int| 0 <= i < blocks.len() ==> (#[trigger] blocks[i]).index == i
    &&& forall|i: int|
        0 <= i < blocks.len() ==> meets_difficulty(
            (#[trigger] blocks[i]).hash,
            blocks[i].difficulty,
        )
    &&& forall|i: int| 0 <= i < blocks.len() ==> 1 <= (#[trigger] blocks[i]).difficulty
    &&& forall|i: int| 0 <= i < blocks.len() ==> (#[trigger] blocks[i]).hash.len() == 64
    &&& forall|i: int|
        1 <= i < blocks.len() ==> (#[trigger] blocks[i]).previous_hash == blocks[i - 1].hash
}

/// The difficulty the controller owes the next block: unchanged at the
/// base before a full window has been produced; one harder when the last
/// window took less than half the expected time (or time ran backwards);
/// one easier, floored at one, when it took more than double; unchanged
/// otherwise.
pub open spec fn spec_next_difficulty(blocks: Seq<BlockView>, cfg: Config) -> int {
    if blocks.len() <= cfg.adjustment_interval {
        cfg.base_difficulty as int
    } else {
        let last = blocks.last();
        let anchor = blocks[blocks.len() - cfg.adjustment_interval];
        let elapsed = last.timestamp - anchor.timestamp;
        let expected = cfg.target_seconds_per_block as int * cfg.adjustment_interval as int;
        if elapsed < expected / 2 {
            last.difficulty + 1int
        } else if elapsed > expected * 2 {
            if last.difficulty <= 1 {
                1int
            } else {
                last.difficulty - 1
            }
        } else {
            last.difficulty as int
        }
    }
}

/// Whether the validating append accepts `b` onto `blocks`: the index
/// continues the chain, the previous hash matches the tip, the hash
/// meets the block's own recorded difficulty, and the block satisfies
/// the data-model invariants of a sealed block — a positive difficulty
/// and a 64-digit hash.
pub open spec fn accepted(blocks: Seq<BlockView>, b: BlockView) -> bool {
    &&& b.index == blocks.len()
    &&& b.previous_hash == blocks.last().hash
    &&& meets_difficulty(b.hash, b.difficulty)
    &&& 1 <= b.difficulty
    &&& b.hash.len() == 64
}

/// The genesis block of `cfg`, created at time `now`, before sealing.
pub open spec fn spec_genesis_unsealed(cfg: Config, now: nat) -> BlockView {
    BlockView {
        index: 0,
        previous_hash: Seq::empty(),
        timestamp: now,
        transactions: Seq::empty(),
        nonce: 0,
        hash: Seq::empty(),
        difficulty: cfg.base_difficulty as nat,
    }
}

/// The candidate block that mining on top of `blocks` builds for a given
/// nonce, before sealing.
pub open spec fn spec_candidate(
    blocks: Seq<BlockView>,
    cfg: Config,
    miner: Seq<u8>,
    pending: Seq<TransactionView>,
    now: nat,
    nonce: nat,
) -> BlockView {
    BlockView {
        index: blocks.len(),
        previous_hash: blocks.last().hash,
        timestamp: now,
        transactions: pending.push(spec_reward_tx(miner, cfg.mining_reward as nat, now)),
        nonce,
        hash: Seq::empty(),
        difficulty: spec_next_difficulty(blocks, cfg) as nat,
    }
}

/// The error of the validating append: the block does not continue the
/// chain, or fails the difficulty predicate or the sealed-block
/// invariants. The chain is left at its prior state.
#[derive(Debug)]
pub struct ChainLinkageError;

/// An append-only chain of blocks under one configuration.
#[derive(Debug)]
pub struct Blockchain {
    pub config: Config,
    pub chain: Vec<Block>,
}

impl View for Blockchain {
    type V = Seq<BlockView>;

    open spec fn view(&self) -> Seq<BlockView> {
        self.chain.deep_view()
    }
}

impl Blockchain {
    /// Chain integrity for this chain's own configuration.
    pub open spec fn wf(self) -> bool {
        chain_wf(self@, self.config)
    }

    /// Starts a chain: constructs the genesis block — index zero, no
    /// predecessor, no transactions, the base difficulty — and seals it
    /// immediately. A cancelled genesis search yields no chain.
    pub fn new(config: Config, now: u64, budget: u64) -> (r: Result<Blockchain, SealCancelled>)
        requires
            config.wf(),
        ensures
            match r {
                Ok(c) => {
                    &&& c.wf()
                    &&& c.config == config
                    &&& c@.len() == 1
                    &&& c@[0].index == 0
                    &&& c@[0].previous_hash == Seq::<u8>::empty()
                    &&& c@[0].timestamp == now as nat
                    &&& c@[0].transactions == Seq::<TransactionView>::empty()
                    &&& c@[0].difficulty == config.base_difficulty as nat
                    &&& c@[0].hash == block_hash_of(c@[0])
                    &&& c@[0].hash.len() == 64
                    &&& meets_difficulty(c@[0].hash, c@[0].difficulty)
                },
                Err(_) => forall|m: nat|
                    m < budget as nat ==> !meets_difficulty(
                        block_hash_of(with_nonce(spec_genesis_unsealed(config, now as nat), m)),
                        config.base_difficulty as nat,
                    ),
            },
    {
        let mut genesis = Block::new(0, Vec::new(), Vec::new(), config.base_difficulty, now);
        proof {
            assert(genesis@ =~= spec_genesis_unsealed(config, now as nat));
        }
        match genesis.seal(budget) {
            Ok(()) => {
                let mut blocks: Vec<Block> = Vec::new();
                blocks.push(genesis);
                let c = Blockchain { config, chain: blocks };
                proof {
                    assert(c@ =~= seq![c.chain@[0]@]);
                }
                Ok(c)
            },
            Err(cancelled) => Err(cancelled),
        }
    }

    /// The number of blocks in the chain.
    pub fn get_total_blocks(&self) -> (n: usize)
        ensures
            n == self@.len(),
    {
        self.chain.len()
    }

    /// The difficulty controller, exactly as `spec_next_difficulty`
    /// describes it.
    pub fn calculate_difficulty(&self) -> (d: u64)
        requires
            self.wf(),
        ensures
            d as int == spec_next_difficulty(self@, self.config),
            1 <= d,
    {
        let len = self.chain.len();
        if len <= self.config.adjustment_interval {
            return self.config.base_difficulty;
        }
        let last = &self.chain[len - 1];
        let anchor = &self.chain[len - self.config.adjustment_interval];
        proof {
            assert(last@ == self@.last());
            assert(anchor@ == self@[self@.len() - self.config.adjustment_interval]);
            assert(meets_difficulty(self@.last().hash, self@.last().difficulty));
            assert(self@.last().difficulty <= 64);
        }
        let expected = self.config.target_seconds_per_block * (self.config.adjustment_interval
            as u64);
        if last.timestamp < anchor.timestamp {
            // the clock ran backwards inside the window: treat as blocks
            // coming too fast
            last.difficulty + 1
        } else {
            let elapsed = last.timestamp - anchor.timestamp;
            if elapsed < expected / 2 {
                last.difficulty + 1
            } else if elapsed > expected * 2 {
                if last.difficulty <= 1 {
                    1
                } else {
                    last.difficulty - 1
                }
            } else {
                last.difficulty
            }
        }
    }

    /// Builds and seals the next block: appends the reward transaction
    /// for `miner` to the pending set, asks the controller for the next
    /// difficulty, links the block to the current tip, and runs the
    /// proof-of-work search. Returns the sealed block without appending
    /// it; a cancelled search returns no block.
    pub fn mine_block(
        &self,
        miner: Vec<u8>,
        pending_transactions: Vec<Transaction>,
        now: u64,
        budget: u64,
    ) -> (r: Result<Block, SealCancelled>)
        requires
            self.wf(),
            self@.len() < u32::MAX as nat,
        ensures
            match r {
                Ok(b) => {
                    &&& b@.index == self@.len()
                    &&& b@.previous_hash == self@.last().hash
                    &&& b@.timestamp == now as nat
                    &&& b@.transactions == pending_transactions.deep_view().push(
                        spec_reward_tx(miner@, self.config.mining_reward as nat, now as nat),
                    )
                    &&& b@.difficulty == spec_next_difficulty(self@, self.config)
                    &&& b@.hash == block_hash_of(b@)
                    &&& b@.hash.len() == 64
                    &&& meets_difficulty(b@.hash, b@.difficulty)
                    &&& b@.nonce < budget as nat
                    &&& forall|m: nat|
                        m < b@.nonce ==> !meets_difficulty(
                            block_hash_of(
                                spec_candidate(
                                    self@,
                                    self.config,
                                    miner@,
                                    pending_transactions.deep_view(),
                                    now as nat,
                                    m,
                                ),
                            ),
                            b@.difficulty,
                        )
                    &&& accepted(self@, b@)
                },
                Err(_) => forall|m: nat|
                    m < budget as nat ==> !meets_difficulty(
                        block_hash_of(
                            spec_candidate(
                                self@,
                                self.config,
                                miner@,
                                pending_transactions.deep_view(),
                                now as nat,
                                m,
                            ),
                        ),
                        spec_next_difficulty(self@, self.config) as nat,
                    ),
            },
    {
        let ghost miner0 = miner@;
        let ghost pending0 = pending_transactions.deep_view();
        let difficulty = self.calculate_difficulty();
        let mut transactions = pending_transactions;
        let reward_tx = Transaction::new(
            network_sender_bytes(),
            miner,
            self.config.mining_reward,
            now,
        );
        transactions.push(reward_tx);
        proof {
            assert(transactions.deep_view() =~= pending0.push(
                spec_reward_tx(miner0, self.config.mining_reward as nat, now as nat),
            ));
        }
        let len = self.chain.len();
        let previous_hash = copy_bytes(&self.chain[len - 1].hash);
        proof {
            assert(self.chain[len - 1]@ == self@.last());
        }
        let mut block = Block::new(len as u32, previous_hash, transactions, difficulty, now);
        let ghost unsealed = block@;
        proof {
            assert(unsealed =~= spec_candidate(
                self@,
                self.config,
                miner0,
                pending0,
                now as nat,
                0,
            ));
        }
        match block.seal(budget) {
            Ok(()) => {
                proof {
                    assert forall|m: nat| m < block@.nonce implies !meets_difficulty(
                        block_hash_of(
                            spec_candidate(self@, self.config, miner0, pending0, now as nat, m),
                        ),
                        block@.difficulty,
                    ) by {
                        assert(with_nonce(unsealed, m) =~= spec_candidate(
                            self@,
                            self.config,
                            miner0,
                            pending0,
                            now as nat,
                            m,
                        ));
                    }
                }
                Ok(block)
            },
            Err(cancelled) => {
                proof {
                    assert forall|m: nat| m < budget as nat implies !meets_difficulty(
                        block_hash_of(
                            spec_candidate(self@, self.config, miner0, pending0, now as nat, m),
                        ),
                        spec_next_difficulty(self@, self.config) as nat,
                    ) by {
                        assert(with_nonce(unsealed, m) =~= spec_candidate(
                            self@,
                            self.config,
                            miner0,
                            pending0,
                            now as nat,
                            m,
                        ));
                    }
                }
                Err(cancelled)
            },
        }
    }

    /// The validating append: accepts `block` only if it continues the
    /// chain, as `accepted` describes; a rejected block leaves the chain
    /// exactly as it was, at its prior length and tip.
    pub fn add_block(&mut self, block: Block) -> (r: Result<(), ChainLinkageError>)
        requires
            old(self).wf(),
        ensures
            final(self).wf(),
            final(self).config == old(self).config,
            match r {
                Ok(()) => accepted(old(self)@, block@) && final(self)@ == old(self)@.push(
                    block@,
                ),
                Err(_) => !accepted(old(self)@, block@) && final(self)@ == old(self)@,
            },
    {
        let len = self.chain.len();
        let ok_index = len == block.index as usize;
        let ok_link = bytes_eq(&block.previous_hash, &self.chain[len - 1].hash);
        let ok_pow = check_difficulty(&block.hash, block.difficulty);
        let ok_positive = block.difficulty >= 1;
        let ok_hash_len = block.hash.len() == 64;
        proof {
            assert(self.chain[len - 1]@ == self@.last());
        }
        if ok_index && ok_link && ok_pow && ok_positive && ok_hash_len {
            let ghost b = block@;
            let ghost before = self@;
            self.chain.push(block);
            proof {
                assert(self@ =~= before.push(b));
                let now_chain = self@;
                assert forall|i: int| 0 <= i < now_chain.len() implies (#[trigger] now_chain[i]).index
                    == i && meets_difficulty(now_chain[i].hash, now_chain[i].difficulty) && 1
                    <= now_chain[i].difficulty && now_chain[i].hash.len() == 64 by {
                    if i < before.len() {
                        assert(now_chain[i] == before[i]);
                    } else {
                        assert(now_chain[i] == b);
                    }
                }
                assert forall|i: int|
                    1 <= i < now_chain.len() implies (#[trigger] now_chain[i]).previous_hash
                    == now_chain[i - 1].hash by {
                    if i < before.len() {
                        assert(now_chain[i] == before[i]);
                    } else {
                        assert(now_chain[i] == b);
                        assert(now_chain[i - 1] == before.last());
                    }
                }
            }
            Ok(())
        } else {
            proof {
                assert(!accepted(self@, block@));
            }
            Err(ChainLinkageError)
        }
    }
}

/// Law: in a well-formed chain, every block past the genesis records the
/// hash of its predecessor, and every block records its own position.
pub proof fn lemma_chain_linkage(blocks: Seq<BlockView>, cfg: Config, i: int)
    requires
        chain_wf(blocks, cfg),
        1 <= i < blocks.len(),
    ensures
        blocks[i].previous_hash == blocks[i - 1].hash,
        blocks[i].index == i,
{
}

} // verus!
