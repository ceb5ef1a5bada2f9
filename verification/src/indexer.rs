//! The indexer's checkpoint and the decisions of its scan: which block to
//! ask for next, whether a block continues the chain, and what a block adds
//! to what was found.

use std::collections::HashSet;
use vstd::prelude::*;
use crate::keyset::with_all_keys;
use crate::rpc::{
    clone_heights, with_chunks, BlockHeight, BlockKind, BlockView, ChunkView, Client,
    CryptoHash, IndexedData, IndexedView, chunk_missing, logs_view,
};

verus! {

/// The time after which the checkpoint is saved again, in milliseconds.
pub const SAVE_FILE_TIMEOUT: u64 = 60_000;

/// The time after which the chain's tip is asked for again, and the time to
/// wait at the tip, in milliseconds.
pub const FORWARD_BLOCK_TIMEOUT: u64 = 120_000;

/// The indexer's checkpoint: what is saved to the file and loaded from it
/// when the program starts again.
#[derive(Debug)]
pub struct IndexerData {
    /// Height of the first indexed block.
    pub first_block: BlockHeight,
    /// Height of the last block that indexing was attempted for. The next
    /// step asks for the block after it.
    pub last_block: BlockHeight,
    /// Height of the last block that was indexed.
    pub last_handled_block: BlockHeight,
    /// The chain's tip when the last block was indexed.
    pub current_block: BlockHeight,
    /// Hash of the block at `last_handled_block`.
    pub last_block_hash: Option<CryptoHash>,
    /// Heights whose data could not be fetched.
    pub missed_blocks: HashSet<BlockHeight>,
    /// What was found: accounts, proofs and the log.
    pub data: IndexedData,
}

/// What an `IndexerData` holds.
pub struct CheckpointView {
    pub first_block: BlockHeight,
    pub last_block: BlockHeight,
    pub last_handled_block: BlockHeight,
    pub current_block: BlockHeight,
    pub last_block_hash: Option<Seq<u8>>,
    pub missed_blocks: Set<BlockHeight>,
    pub data: IndexedView,
}

/// What an optional hash holds.
pub open spec fn optional_hash(hash: Option<CryptoHash>) -> Option<Seq<u8>> {
    match hash {
        Some(h) => Some(h@),
        None => None,
    }
}

impl View for IndexerData {
    type V = CheckpointView;

    open spec fn view(&self) -> CheckpointView {
        CheckpointView {
            first_block: self.first_block,
            last_block: self.last_block,
            last_handled_block: self.last_handled_block,
            current_block: self.current_block,
            last_block_hash: optional_hash(self.last_block_hash),
            missed_blocks: self.missed_blocks@,
            data: self.data@,
        }
    }
}

impl CheckpointView {
    /// The checkpoint of an indexer that has seen nothing.
    pub open spec fn empty() -> CheckpointView {
        CheckpointView {
            first_block: 0,
            last_block: 0,
            last_handled_block: 0,
            current_block: 0,
            last_block_hash: None,
            missed_blocks: Set::empty(),
            data: IndexedView::empty(),
        }
    }

    /// The checkpoint set to start at `height`: the block before it counts
    /// as attempted, and the first block is no later than it.
    pub open spec fn starting_at(self, height: BlockHeight) -> CheckpointView {
        CheckpointView {
            first_block: if self.first_block > height {
                height
            } else {
                self.first_block
            },
            last_block: (height - 1) as u64,
            last_handled_block: self.last_handled_block,
            current_block: self.current_block,
            last_block_hash: self.last_block_hash,
            missed_blocks: self.missed_blocks,
            data: self.data,
        }
    }

    /// The checkpoint with the pointer to the last attempted block moved.
    pub open spec fn with_last_block(self, height: BlockHeight) -> CheckpointView {
        CheckpointView {
            first_block: self.first_block,
            last_block: height,
            last_handled_block: self.last_handled_block,
            current_block: self.current_block,
            last_block_hash: self.last_block_hash,
            missed_blocks: self.missed_blocks,
            data: self.data,
        }
    }

    /// The checkpoint after the block at `height` could not be fetched: the
    /// height is recorded and the scan moves past it.
    pub open spec fn with_missed(self, height: BlockHeight) -> CheckpointView {
        CheckpointView {
            first_block: self.first_block,
            last_block: height,
            last_handled_block: self.last_handled_block,
            current_block: self.current_block,
            last_block_hash: self.last_block_hash,
            missed_blocks: self.missed_blocks.insert(height),
            data: self.data,
        }
    }

    /// The checkpoint after the block at `last_block` with the hash `hash`
    /// was indexed: what it yielded is added, accounts and proofs each once
    /// and the log at the end; the heights move to the block; `first_block`
    /// is set if it was not.
    pub open spec fn merged(
        self,
        indexed: IndexedView,
        missed: Set<BlockHeight>,
        current_block: BlockHeight,
        first_block: BlockHeight,
        last_block: BlockHeight,
        hash: Seq<u8>,
    ) -> CheckpointView {
        CheckpointView {
            first_block: if first_block == 0 {
                last_block
            } else {
                first_block
            },
            last_block,
            last_handled_block: last_block,
            current_block,
            last_block_hash: Some(hash),
            missed_blocks: missed,
            data: IndexedView {
                accounts: with_all_keys(self.data.accounts, indexed.accounts),
                proofs: with_all_keys(self.data.proofs, indexed.proofs),
                logs: self.data.logs + indexed.logs,
            },
        }
    }

    /// Whether a block with the parent hash `prev_hash` continues the chain
    /// that the checkpoint has followed.
    pub open spec fn continues(self, prev_hash: Seq<u8>) -> bool {
        self.last_block_hash matches Some(hash) ==> hash == prev_hash
    }
}

impl IndexerData {
    /// The checkpoint of an indexer that has seen nothing.
    pub fn new() -> (data: Self)
        ensures
            data@ == CheckpointView::empty(),
    {
        IndexerData {
            first_block: 0,
            last_block: 0,
            last_handled_block: 0,
            current_block: 0,
            last_block_hash: None,
            missed_blocks: HashSet::new(),
            data: IndexedData::new(),
        }
    }
}

impl Clone for IndexerData {
    /// A copy of the checkpoint, as it is handed out for saving.
    fn clone(&self) -> (data: Self)
        ensures
            data@ == self@,
    {
        IndexerData {
            first_block: self.first_block,
            last_block: self.last_block,
            last_handled_block: self.last_handled_block,
            current_block: self.current_block,
            last_block_hash: self.last_block_hash,
            missed_blocks: clone_heights(&self.missed_blocks),
            data: self.data.clone(),
        }
    }
}

impl Default for IndexerData {
    fn default() -> (data: Self)
        ensures
            data@ == CheckpointView::empty(),
    {
        IndexerData::new()
    }
}

/// The indexer: its checkpoint, and what it knows of the chain's tip and of
/// the time.
#[derive(Debug)]
pub struct Indexer {
    /// The checkpoint.
    pub data: IndexerData,
    /// Height of the chain's tip, as last seen.
    pub forward_block: Option<BlockHeight>,
    /// The time at which the checkpoint was last handed out for saving.
    pub last_saved_time: u64,
    /// The time at which the chain's tip was last asked for.
    pub last_forward_time: u64,
}

/// Numbers that describe how far indexing has come.
#[derive(Debug, Clone, Copy, PartialEq, Eq)]
pub struct IndexerStats {
    pub first_block: BlockHeight,
    pub last_block: BlockHeight,
    pub saved_in_block: BlockHeight,
    pub current_block: BlockHeight,
    pub missed_blocks: usize,
    pub accounts: usize,
    pub proofs: usize,
}

impl Indexer {
    /// An indexer that goes on from `data`, the checkpoint that was loaded
    /// (`None`: there is none), at the time `now`. With `block_height` the
    /// scan starts at that height instead.
    pub fn new(data: Option<IndexerData>, block_height: Option<BlockHeight>, now: u64) -> (indexer:
        Self)
        requires
            block_height matches Some(height) ==> height > 0,
        ensures
            indexer.forward_block is None,
            indexer.last_saved_time == now,
            indexer.last_forward_time == now,
            indexer.data@ == ({
                let loaded = match data {
                    Some(checkpoint) => checkpoint@,
                    None => CheckpointView::empty(),
                };
                match block_height {
                    Some(height) => loaded.starting_at(height),
                    None => loaded,
                }
            }),
    {
        let mut data = match data {
            Some(checkpoint) => checkpoint,
            None => IndexerData::new(),
        };
        if let Some(block_height) = block_height {
            data.last_block = block_height - 1;
            if data.first_block > block_height {
                data.first_block = block_height;
            }
        }
        Indexer { data, forward_block: None, last_saved_time: now, last_forward_time: now }
    }

    /// How far indexing has come, with `height` the chain's tip.
    pub fn stats(&self, height: BlockHeight) -> (stats: IndexerStats)
        ensures
            stats.first_block == self.data.first_block,
            stats.last_block == self.data.last_block,
            stats.saved_in_block == self.data.current_block,
            stats.current_block == height,
            stats.missed_blocks == self.data.missed_blocks@.len(),
            stats.accounts == self.data.data@.accounts.len(),
            stats.proofs == self.data.data@.proofs.len(),
    {
        broadcast use vstd::std_specs::hash::group_hash_axioms;

        IndexerStats {
            first_block: self.data.first_block,
            last_block: self.data.last_block,
            saved_in_block: self.data.current_block,
            current_block: height,
            missed_blocks: self.data.missed_blocks.len(),
            accounts: self.data.data.accounts.len(),
            proofs: self.data.data.proofs.len(),
        }
    }

    /// Takes what the block at `last_block` yielded into the checkpoint.
    pub fn set_indexed_data(
        &mut self,
        indexed_data: IndexedData,
        missed_blocks: HashSet<BlockHeight>,
        current_block: BlockHeight,
        first_block: BlockHeight,
        last_block: BlockHeight,
        block_hash: CryptoHash,
    )
        ensures
            final(self).data@ == old(self).data@.merged(
                indexed_data@,
                missed_blocks@,
                current_block,
                first_block,
                last_block,
                block_hash@,
            ),
            final(self).forward_block == old(self).forward_block,
            final(self).last_saved_time == old(self).last_saved_time,
            final(self).last_forward_time == old(self).last_forward_time,
    {
        self.data.first_block = first_block;
        if self.data.first_block == 0 {
            self.data.first_block = last_block;
        }
        self.data.last_block = last_block;
        self.data.last_handled_block = last_block;
        self.data.current_block = current_block;
        let IndexedData { accounts, proofs, logs } = indexed_data;
        self.data.data.accounts.merge(&accounts);
        self.data.data.proofs.merge(&proofs);
        let mut logs = logs;
        let ghost before = self.data.data.logs@;
        let ghost added = logs@;
        self.data.data.logs.append(&mut logs);
        assert(logs_view(self.data.data.logs@) =~= logs_view(before) + logs_view(added));
        self.data.missed_blocks = missed_blocks;
        self.data.last_block_hash = Some(block_hash);
    }
}

/// What an `Indexer` holds.
pub struct IndexerView {
    pub data: CheckpointView,
    pub forward_block: Option<BlockHeight>,
    pub last_saved_time: u64,
    pub last_forward_time: u64,
}

impl View for Indexer {
    type V = IndexerView;

    open spec fn view(&self) -> IndexerView {
        IndexerView {
            data: self.data@,
            forward_block: self.forward_block,
            last_saved_time: self.last_saved_time,
            last_forward_time: self.last_forward_time,
        }
    }
}

/// What the scan is told.
#[derive(Debug, Clone, PartialEq, Eq)]
pub enum IndexerEvent {
    /// A new iteration begins.
    Start,
    /// The node's answer to the question for the chain's tip (`None`: it
    /// gave none).
    Tip(Option<BlockHeight>),
    /// The node's answer to the request for the next block (`None`: it gave
    /// none).
    Block(Option<BlockView>),
    /// The node's answers to the requests for the chunks of `block`, in
    /// turn (`None`: the chunk could not be fetched).
    Chunks { block: BlockView, chunks: Vec<Option<ChunkView>> },
}

/// What the scan asks for.
#[derive(Debug, Clone, PartialEq, Eq)]
pub enum IndexerAction {
    /// Ask the node for the chain's tip.
    RefreshTip,
    /// Wait this many milliseconds, then begin again.
    Sleep(u64),
    /// Ask the node for the block at this height.
    FetchBlock(BlockHeight),
    /// Ask the node for the chunks of this block.
    FetchChunks(BlockView),
    /// The iteration is over. With `save` the checkpoint is due for saving.
    Done { save: bool },
}

/// The time from `since` to `now`; none where the clock went back.
pub open spec fn elapsed(now: u64, since: u64) -> int {
    if now > since {
        now - since
    } else {
        0
    }
}

/// The state of a scan and the action it asks for.
pub struct Scan {
    pub indexer: IndexerView,
    pub unresolved: Set<BlockHeight>,
    pub action: IndexerAction,
}

impl IndexerView {
    /// The height that the scan asks for next, if there is one.
    pub open spec fn next_height(self) -> Option<BlockHeight> {
        if self.data.last_block < u64::MAX {
            Some((self.data.last_block + 1) as u64)
        } else {
            None
        }
    }

    /// Whether the chain's tip has to be asked for: it is not known, or was
    /// last asked for more than `FORWARD_BLOCK_TIMEOUT` ago.
    pub open spec fn tip_is_stale(self, now: u64) -> bool {
        self.forward_block is None || elapsed(now, self.last_forward_time) > FORWARD_BLOCK_TIMEOUT
    }

    /// The chain's tip as far as it is known.
    pub open spec fn tip(self) -> BlockHeight {
        match self.forward_block {
            Some(height) => height,
            None => 0,
        }
    }

    /// Ask for the next block, or wait where it lies beyond the tip.
    pub open spec fn fetch_or_wait(self) -> IndexerAction {
        match self.next_height() {
            Some(height) => if height > self.tip() {
                IndexerAction::Sleep(FORWARD_BLOCK_TIMEOUT)
            } else {
                IndexerAction::FetchBlock(height)
            },
            None => IndexerAction::Sleep(FORWARD_BLOCK_TIMEOUT),
        }
    }

    /// The indexer with another checkpoint.
    pub open spec fn with_data(self, data: CheckpointView) -> IndexerView {
        IndexerView {
            data,
            forward_block: self.forward_block,
            last_saved_time: self.last_saved_time,
            last_forward_time: self.last_forward_time,
        }
    }

    /// The beginning of an iteration: ask for the tip where it is stale,
    /// else go on to the next block.
    pub open spec fn begun(self, unresolved: Set<BlockHeight>, now: u64) -> Scan {
        if self.tip_is_stale(now) {
            Scan {
                indexer: IndexerView {
                    data: self.data,
                    forward_block: self.forward_block,
                    last_saved_time: self.last_saved_time,
                    last_forward_time: now,
                },
                unresolved,
                action: IndexerAction::RefreshTip,
            }
        } else {
            Scan { indexer: self, unresolved, action: self.fetch_or_wait() }
        }
    }

    /// After the node's answer on the tip: a tip that came is taken over;
    /// then the scan goes on to the next block.
    pub open spec fn tip_taken(self, unresolved: Set<BlockHeight>, tip: Option<BlockHeight>) -> Scan {
        let indexer = IndexerView {
            data: self.data,
            forward_block: match tip {
                Some(height) => Some(height),
                None => self.forward_block,
            },
            last_saved_time: self.last_saved_time,
            last_forward_time: self.last_forward_time,
        };
        Scan { indexer, unresolved, action: indexer.fetch_or_wait() }
    }

    /// After the node's answer on the next block. A block that did not come
    /// is recorded as missed and passed over. One that does not continue the
    /// chain sends the scan back to the last indexed block. For any other
    /// the chunks are asked for.
    pub open spec fn block_taken(self, unresolved: Set<BlockHeight>, fetched: Option<BlockView>) -> Scan {
        match self.next_height() {
            None => Scan { indexer: self, unresolved, action: IndexerAction::Done { save: false } },
            Some(height) => match fetched {
                None => Scan {
                    indexer: self.with_data(self.data.with_missed(height)),
                    unresolved: unresolved.insert(height),
                    action: IndexerAction::Done { save: false },
                },
                Some(block) => if self.data.continues(block.prev_hash@) {
                    Scan {
                        indexer: self,
                        unresolved: unresolved.remove(height),
                        action: IndexerAction::FetchChunks(block),
                    }
                } else {
                    Scan {
                        indexer: self.with_data(
                            self.data.with_last_block(self.data.last_handled_block),
                        ),
                        unresolved: unresolved.remove(height),
                        action: IndexerAction::Done { save: false },
                    }
                },
            },
        }
    }

    /// The heights that are unresolved after the chunks of the block at
    /// `height` were asked for.
    pub open spec fn unresolved_after(
        unresolved: Set<BlockHeight>,
        chunks: Seq<Option<ChunkView>>,
        height: BlockHeight,
    ) -> Set<BlockHeight> {
        if chunk_missing(chunks, chunks.len()) {
            unresolved.insert(height)
        } else {
            unresolved.remove(height)
        }
    }

    /// After the node's answers on the chunks of `block`. A block that does
    /// not continue the chain sends the scan back to the last indexed block
    /// and adds nothing. Any other is indexed and taken into the
    /// checkpoint, which is due for saving where it was last handed out
    /// more than `SAVE_FILE_TIMEOUT` ago.
    pub open spec fn chunks_taken(
        self,
        unresolved: Set<BlockHeight>,
        block: BlockView,
        chunks: Seq<Option<ChunkView>>,
        now: u64,
    ) -> Scan {
        match self.next_height() {
            None => Scan { indexer: self, unresolved, action: IndexerAction::Done { save: false } },
            Some(height) => if !self.data.continues(block.prev_hash@) {
                Scan {
                    indexer: self.with_data(
                        self.data.with_last_block(self.data.last_handled_block),
                    ),
                    unresolved,
                    action: IndexerAction::Done { save: false },
                }
            } else {
                let after = Self::unresolved_after(unresolved, chunks, height);
                let save = elapsed(now, self.last_saved_time) > SAVE_FILE_TIMEOUT;
                Scan {
                    indexer: IndexerView {
                        data: self.data.merged(
                            with_chunks(IndexedView::empty(), chunks, chunks.len(), height),
                            after,
                            self.tip(),
                            self.data.first_block,
                            height,
                            block.hash@,
                        ),
                        forward_block: self.forward_block,
                        last_saved_time: if save {
                            now
                        } else {
                            self.last_saved_time
                        },
                        last_forward_time: self.last_forward_time,
                    },
                    unresolved: after,
                    action: IndexerAction::Done { save },
                }
            },
        }
    }

    /// The scan after one event.
    pub open spec fn stepped(self, unresolved: Set<BlockHeight>, event: IndexerEvent, now: u64) -> Scan {
        match event {
            IndexerEvent::Start => self.begun(unresolved, now),
            IndexerEvent::Tip(tip) => self.tip_taken(unresolved, tip),
            IndexerEvent::Block(fetched) => self.block_taken(unresolved, fetched),
            IndexerEvent::Chunks { block, chunks } => self.chunks_taken(
                unresolved,
                block,
                chunks@,
                now,
            ),
        }
    }
}

/// Whether more than `limit` milliseconds lie between `since` and `now`.
pub fn is_overdue(now: u64, since: u64, limit: u64) -> (b: bool)
    ensures
        b == (elapsed(now, since) > limit),
{
    now > since && now - since > limit
}

impl Indexer {
    /// Begins a run of the scan: hands the heights that earlier runs could
    /// not fetch to the client, and returns the height that the scan has
    /// reached. The run itself is a sequence of steps of `handle_block`.
    pub fn run(&self, client: &mut Client) -> (height: BlockHeight)
        ensures
            height == self.data.last_block,
            final(client).unresolved_blocks@ == self.data.missed_blocks@,
            final(client).last_call == old(client).last_call,
    {
        client.set_missed_blocks(clone_heights(&self.data.missed_blocks));
        self.data.last_block
    }

    /// Ask for the next block, or wait where it lies beyond the tip.
    fn fetch_or_wait(&self) -> (action: IndexerAction)
        ensures
            action == self@.fetch_or_wait(),
    {
        let current_height = match self.forward_block {
            Some(height) => height,
            None => 0,
        };
        match self.data.last_block.checked_add(1) {
            Some(last_block) => {
                if last_block > current_height {
                    IndexerAction::Sleep(FORWARD_BLOCK_TIMEOUT)
                } else {
                    IndexerAction::FetchBlock(last_block)
                }
            },
            None => IndexerAction::Sleep(FORWARD_BLOCK_TIMEOUT),
        }
    }

    /// Whether `prev_hash` is the hash of the last indexed block, as far as
    /// one is known.
    fn continues(&self, prev_hash: &CryptoHash) -> (b: bool)
        ensures
            b == self.data@.continues(prev_hash@),
    {
        match &self.data.last_block_hash {
            Some(hash) => hash.same(prev_hash),
            None => true,
        }
    }

    /// One step of the scan: takes an event at the time `now` and says what
    /// to do next.
    pub fn handle_block(&mut self, client: &mut Client, event: IndexerEvent, now: u64) -> (action:
        IndexerAction)
        ensures
            old(self)@.stepped(old(client).unresolved_blocks@, event, now) == (Scan {
                indexer: final(self)@,
                unresolved: final(client).unresolved_blocks@,
                action,
            }),
            final(client).last_call == old(client).last_call,
    {
        broadcast use vstd::std_specs::hash::group_hash_axioms;

        match event {
            IndexerEvent::Start => {
                if self.forward_block.is_none() || is_overdue(
                    now,
                    self.last_forward_time,
                    FORWARD_BLOCK_TIMEOUT,
                ) {
                    self.last_forward_time = now;
                    IndexerAction::RefreshTip
                } else {
                    self.fetch_or_wait()
                }
            },
            IndexerEvent::Tip(tip) => {
                if let Some(height) = tip {
                    self.forward_block = Some(height);
                }
                self.fetch_or_wait()
            },
            IndexerEvent::Block(fetched) => {
                let Some(last_block) = self.data.last_block.checked_add(1) else {
                    return IndexerAction::Done { save: false };
                };
                match client.get_block(BlockKind::Height(last_block), fetched) {
                    Ok(block) => {
                        client.unresolved_blocks.remove(&last_block);
                        if self.continues(&block.prev_hash) {
                            IndexerAction::FetchChunks(block)
                        } else {
                            self.data.last_block = self.data.last_handled_block;
                            IndexerAction::Done { save: false }
                        }
                    },
                    Err(_) => {
                        // A block that is not found does not stop the scan.
                        self.data.last_block = last_block;
                        self.data.missed_blocks.insert(last_block);
                        IndexerAction::Done { save: false }
                    },
                }
            },
            IndexerEvent::Chunks { block, chunks } => {
                let Some(last_block) = self.data.last_block.checked_add(1) else {
                    return IndexerAction::Done { save: false };
                };
                if !self.continues(&block.prev_hash) {
                    self.data.last_block = self.data.last_handled_block;
                    return IndexerAction::Done { save: false };
                }
                let first_block = self.data.first_block;
                let current_height = match self.forward_block {
                    Some(height) => height,
                    None => 0,
                };
                let indexed_data = client.get_chunk_indexed_data(chunks, last_block);
                self.set_indexed_data(
                    indexed_data,
                    clone_heights(&client.unresolved_blocks),
                    current_height,
                    first_block,
                    last_block,
                    block.hash,
                );
                if is_overdue(now, self.last_saved_time, SAVE_FILE_TIMEOUT) {
                    self.last_saved_time = now;
                    IndexerAction::Done { save: true }
                } else {
                    IndexerAction::Done { save: false }
                }
            },
        }
    }
}

/// A reorganisation is not indexed. Where the checkpoint knows the hash of
/// the last indexed block and the next block names another parent, the
/// answer on the block sends the scan back to the last indexed block and
/// asks for no chunks; and should its chunks be handed in all the same, they
/// add nothing: accounts, proofs, log and the last indexed block stay as
/// they are.
pub proof fn lemma_reorg_rolls_back(
    indexer: IndexerView,
    unresolved: Set<BlockHeight>,
    block: BlockView,
    chunks: Seq<Option<ChunkView>>,
    now: u64,
)
    requires
        indexer.data.last_block < u64::MAX,
        indexer.data.last_block_hash is Some,
        indexer.data.last_block_hash != Some(block.prev_hash@),
    ensures
        indexer.block_taken(unresolved, Some(block)).action == (IndexerAction::Done {
            save: false,
        }),
        indexer.block_taken(unresolved, Some(block)).indexer.data == indexer.data.with_last_block(
            indexer.data.last_handled_block,
        ),
        indexer.chunks_taken(unresolved, block, chunks, now).action == (IndexerAction::Done {
            save: false,
        }),
        indexer.chunks_taken(unresolved, block, chunks, now).indexer.data
            == indexer.data.with_last_block(indexer.data.last_handled_block),
{
}

/// Indexing again what is indexed adds nothing. Let `chain` give the hash
/// of the block at each height, no two heights with the same hash, and
/// let the checkpoint hold the hash of the block at its last indexed
/// height. Then a block of that chain at or below the last indexed height,
/// handed in again, leaves accounts, proofs and log as they are, and the
/// scan goes back to the last indexed block.
pub proof fn lemma_replay_adds_nothing(
    indexer: IndexerView,
    unresolved: Set<BlockHeight>,
    chain: spec_fn(BlockHeight) -> Seq<u8>,
    block: BlockView,
    chunks: Seq<Option<ChunkView>>,
    now: u64,
)
    requires
        forall|a: BlockHeight, b: BlockHeight| a != b ==> #[trigger] chain(a) != #[trigger] chain(b),
        indexer.data.last_block_hash == Some(chain(indexer.data.last_handled_block)),
        indexer.data.last_block < indexer.data.last_handled_block,
        block.prev_hash@ == chain(indexer.data.last_block),
    ensures
        indexer.chunks_taken(unresolved, block, chunks, now).indexer.data.data == indexer.data.data,
        indexer.chunks_taken(unresolved, block, chunks, now).indexer.data.last_block
            == indexer.data.last_handled_block,
        indexer.chunks_taken(unresolved, block, chunks, now).indexer.data.last_handled_block
            == indexer.data.last_handled_block,
        indexer.block_taken(unresolved, Some(block)).indexer.data.data == indexer.data.data,
        indexer.block_taken(unresolved, Some(block)).action == (IndexerAction::Done {
            save: false,
        }),
{
}

/// Taking the same block's yield into a checkpoint a second time leaves its
/// accounts and proofs as they are after the first time.
pub proof fn lemma_merge_twice(
    checkpoint: CheckpointView,
    indexed: IndexedView,
    missed: Set<BlockHeight>,
    current_block: BlockHeight,
    first_block: BlockHeight,
    last_block: BlockHeight,
    hash: Seq<u8>,
)
    ensures
        ({
            let once = checkpoint.merged(
                indexed,
                missed,
                current_block,
                first_block,
                last_block,
                hash,
            );
            let twice = once.merged(indexed, missed, current_block, first_block, last_block, hash);
            twice.data.accounts == once.data.accounts && twice.data.proofs == once.data.proofs
        }),
{
    crate::keyset::lemma_with_all_keys_twice(checkpoint.data.accounts, indexed.accounts);
    crate::keyset::lemma_with_all_keys_twice(checkpoint.data.proofs, indexed.proofs);
}

/// What a block adds is added at the end: the accounts, proofs and log
/// entries of the checkpoint stay, in their places; the last indexed block
/// moves forward where the scan was not behind it; and a first block that
/// is set stays.
pub proof fn lemma_merge_extends(
    indexer: IndexerView,
    unresolved: Set<BlockHeight>,
    block: BlockView,
    chunks: Seq<Option<ChunkView>>,
    now: u64,
)
    requires
        indexer.data.last_block < u64::MAX,
        indexer.data.continues(block.prev_hash@),
    ensures
        ({
            let before = indexer.data;
            let after = indexer.chunks_taken(unresolved, block, chunks, now).indexer.data;
            &&& after.last_handled_block == before.last_block + 1
            &&& after.last_block == after.last_handled_block
            &&& after.last_block_hash == Some(block.hash@)
            &&& before.last_block >= before.last_handled_block ==> after.last_handled_block
                > before.last_handled_block
            &&& before.first_block != 0 ==> after.first_block == before.first_block
            &&& before.first_block == 0 ==> after.first_block == after.last_handled_block
            &&& after.data.accounts.take(before.data.accounts.len() as int) == before.data.accounts
            &&& after.data.proofs.take(before.data.proofs.len() as int) == before.data.proofs
            &&& after.data.logs.take(before.data.logs.len() as int) == before.data.logs
        }),
{
    let height = (indexer.data.last_block + 1) as u64;
    let indexed = with_chunks(IndexedView::empty(), chunks, chunks.len(), height);
    crate::keyset::lemma_with_keys_grows(
        indexer.data.data.accounts,
        indexed.accounts,
        indexed.accounts.len(),
    );
    crate::keyset::lemma_with_keys_grows(
        indexer.data.data.proofs,
        indexed.proofs,
        indexed.proofs.len(),
    );
    assert((indexer.data.data.logs + indexed.logs).take(indexer.data.data.logs.len() as int)
        =~= indexer.data.data.logs);
}

/// What every step of the scan keeps. Where the scan is not behind the
/// last indexed block, it is not behind it after the step, and the last
/// indexed block has not gone back; a first block that is set stays as it
/// is; and accounts, proofs and log only grow at the end.
pub proof fn lemma_step_keeps_order(
    indexer: IndexerView,
    unresolved: Set<BlockHeight>,
    event: IndexerEvent,
    now: u64,
)
    requires
        indexer.data.last_block >= indexer.data.last_handled_block,
    ensures
        ({
            let before = indexer.data;
            let after = indexer.stepped(unresolved, event, now).indexer.data;
            &&& after.last_block >= after.last_handled_block
            &&& after.last_handled_block >= before.last_handled_block
            &&& before.first_block != 0 ==> after.first_block == before.first_block
            &&& after.data.accounts.take(before.data.accounts.len() as int) == before.data.accounts
            &&& after.data.proofs.take(before.data.proofs.len() as int) == before.data.proofs
            &&& after.data.logs.take(before.data.logs.len() as int) == before.data.logs
        }),
{
    let before = indexer.data;
    assert(before.data.accounts.take(before.data.accounts.len() as int) =~= before.data.accounts);
    assert(before.data.proofs.take(before.data.proofs.len() as int) =~= before.data.proofs);
    assert(before.data.logs.take(before.data.logs.len() as int) =~= before.data.logs);
    match event {
        IndexerEvent::Chunks { block, chunks } => {
            if before.last_block < u64::MAX && before.continues(block.prev_hash@) {
                lemma_merge_extends(indexer, unresolved, block, chunks@, now);
            }
        },
        _ => {},
    }
}

} // verus!
