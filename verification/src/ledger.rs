use vstd::prelude::*;
use vstd::slice::*;
use vstd::string::*;

use crate::codec::bytes_to_u32;
use crate::error::LedgerError;
use crate::scanner::order_commitments;
use crate::store::{DatabaseTransaction, Op, Read, COL_META, KEY_PEER_BOOK};

verus! {

/// Height of a block in the chain.
pub type BlockHeight = u32;

/// The state of a ledger: the height of its chain and the accumulator snapshot
/// it has published, held as the leaf sequence the tree is built over.
#[derive(Debug, Clone, PartialEq, Eq)]
pub struct Ledger {
    /// The height that this instance has reached.
    pub current_block_height: BlockHeight,
    /// The commitments under the published accumulator tree: leaf `i` is the
    /// commitment stored with index `i`.
    pub cm_merkle_tree: Vec<Vec<u8>>,
}

/// What a [`Ledger`] stands for.
pub struct LedgerState {
    pub height: BlockHeight,
    pub leaves: Seq<Seq<u8>>,
}

impl View for Ledger {
    type V = LedgerState;

    open spec fn view(&self) -> LedgerState {
        LedgerState {
            height: self.current_block_height,
            leaves: crate::scanner::leaves_view(self.cm_merkle_tree@),
        }
    }
}

impl LedgerState {
    /// This state once the height `primary_height` has been adopted.
    pub open spec fn synced_to(self, primary_height: BlockHeight) -> LedgerState {
        LedgerState { height: primary_height, leaves: self.leaves }
    }

    /// This state once the tree over `leaves` has been published.
    pub open spec fn republished(self, leaves: Seq<Seq<u8>>) -> LedgerState {
        LedgerState { height: self.height, leaves }
    }

    /// A replica at this state trails a primary at `primary_height`.
    pub open spec fn is_stale(self, primary_height: BlockHeight) -> bool {
        primary_height > self.height
    }

    /// How a catch-up with a primary at `primary_height` begins: with a
    /// synchronisation of the store if the replica is stale, and not at all
    /// otherwise.
    pub open spec fn catch_up(
        self,
        update_merkle_tree: bool,
        primary_height: BlockHeight,
    ) -> CatchUpStepView {
        if self.is_stale(primary_height) {
            CatchUpStepView::Ask(
                CatchUpView::Syncing { update_merkle_tree, primary_height },
                CatchUpRequest::SyncWithPrimary,
            )
        } else {
            CatchUpStepView::Done
        }
    }

    /// The state after the caller has found `answer` to the request of a
    /// pending catch-up, and how the catch-up goes on from there.
    ///
    /// A store that cannot synchronise ends the catch-up without an error;
    /// every other failure is returned. The height is adopted as soon as the
    /// store has synchronised, the snapshot only when the new tree is built.
    pub open spec fn resume(self, pending: CatchUpView, answer: CatchUpAnswerView) -> (
        LedgerState,
        CatchUpStepView,
    ) {
        match (pending, answer) {
            (CatchUpView::Syncing { .. }, CatchUpAnswerView::Failed(_)) => (
                self,
                CatchUpStepView::Done,
            ),
            (
                CatchUpView::Syncing { update_merkle_tree, primary_height },
                CatchUpAnswerView::Synced,
            ) => (
                self.synced_to(primary_height),
                if update_merkle_tree {
                    CatchUpStepView::Ask(CatchUpView::Rebuilding, CatchUpRequest::ScanCommitments)
                } else {
                    CatchUpStepView::Done
                },
            ),
            (CatchUpView::Rebuilding, CatchUpAnswerView::Commitments(scan)) => {
                if crate::scanner::well_encoded(scan) {
                    (
                        self,
                        CatchUpStepView::Ask(
                            CatchUpView::Publishing {
                                leaves: crate::scanner::ordered_commitments(scan),
                            },
                            CatchUpRequest::BuildTree,
                        ),
                    )
                } else {
                    (self, CatchUpStepView::Failed(LedgerError::MalformedInteger))
                }
            },
            (CatchUpView::Publishing { leaves }, CatchUpAnswerView::TreeBuilt) => (
                self.republished(leaves),
                CatchUpStepView::Done,
            ),
            (CatchUpView::Rebuilding, CatchUpAnswerView::Failed(e)) => (
                self,
                CatchUpStepView::Failed(e),
            ),
            (CatchUpView::Publishing { .. }, CatchUpAnswerView::Failed(e)) => (
                self,
                CatchUpStepView::Failed(e),
            ),
            _ => (self, CatchUpStepView::Failed(LedgerError::UnexpectedAnswer)),
        }
    }
}

/// Where a catch-up stands while the caller works on the store.
#[derive(Debug, Clone, PartialEq, Eq)]
pub enum CatchUp {
    /// The store has been asked to synchronise with its primary.
    Syncing { update_merkle_tree: bool, primary_height: BlockHeight },
    /// The commitment column is being scanned for a new snapshot.
    Rebuilding,
    /// The tree over `leaves` is being built and published.
    Publishing { leaves: Vec<Vec<u8>> },
}

/// What the caller does for a catch-up.
#[derive(Debug, Clone, Copy, PartialEq, Eq, Structural)]
pub enum CatchUpRequest {
    /// Try to synchronise the secondary store with its primary.
    SyncWithPrimary,
    /// Read every entry of the commitment column.
    ScanCommitments,
    /// Decode the leaves of the pending state, build the accumulator tree
    /// over them, and publish it in place of the old one.
    BuildTree,
}

/// What the caller found when it performed a [`CatchUpRequest`].
#[derive(Debug, Clone, PartialEq, Eq)]
pub enum CatchUpAnswer {
    /// The store has synchronised with its primary.
    Synced,
    /// The entries of the commitment column: key and value of each.
    Commitments(Vec<(Vec<u8>, Vec<u8>)>),
    /// The new tree is published.
    TreeBuilt,
    /// The request could not be performed.
    Failed(LedgerError),
}

/// How a catch-up goes on.
#[derive(Debug, Clone, PartialEq, Eq)]
pub enum CatchUpStep {
    /// The caller performs the request and resumes with its answer.
    Ask(CatchUp, CatchUpRequest),
    /// The catch-up is over.
    Done,
    /// The catch-up is over and reports an error.
    Failed(LedgerError),
}

/// What a [`CatchUp`] stands for.
pub enum CatchUpView {
    Syncing { update_merkle_tree: bool, primary_height: BlockHeight },
    Rebuilding,
    Publishing { leaves: Seq<Seq<u8>> },
}

/// What a [`CatchUpAnswer`] stands for.
pub enum CatchUpAnswerView {
    Synced,
    Commitments(Seq<(Seq<u8>, Seq<u8>)>),
    TreeBuilt,
    Failed(LedgerError),
}

/// What a [`CatchUpStep`] stands for.
pub enum CatchUpStepView {
    Ask(CatchUpView, CatchUpRequest),
    Done,
    Failed(LedgerError),
}

impl View for CatchUp {
    type V = CatchUpView;

    open spec fn view(&self) -> CatchUpView {
        match self {
            CatchUp::Syncing { update_merkle_tree, primary_height } => CatchUpView::Syncing {
                update_merkle_tree: *update_merkle_tree,
                primary_height: *primary_height,
            },
            CatchUp::Rebuilding => CatchUpView::Rebuilding,
            CatchUp::Publishing { leaves } => CatchUpView::Publishing {
                leaves: crate::scanner::leaves_view(leaves@),
            },
        }
    }
}

impl View for CatchUpAnswer {
    type V = CatchUpAnswerView;

    open spec fn view(&self) -> CatchUpAnswerView {
        match self {
            CatchUpAnswer::Synced => CatchUpAnswerView::Synced,
            CatchUpAnswer::Commitments(entries) => CatchUpAnswerView::Commitments(
                crate::scanner::scan_view(entries@),
            ),
            CatchUpAnswer::TreeBuilt => CatchUpAnswerView::TreeBuilt,
            CatchUpAnswer::Failed(e) => CatchUpAnswerView::Failed(*e),
        }
    }
}

impl View for CatchUpStep {
    type V = CatchUpStepView;

    open spec fn view(&self) -> CatchUpStepView {
        match self {
            CatchUpStep::Ask(pending, request) => CatchUpStepView::Ask(pending@, *request),
            CatchUpStep::Done => CatchUpStepView::Done,
            CatchUpStep::Failed(e) => CatchUpStepView::Failed(*e),
        }
    }
}

impl Ledger {
    /// The height that this instance has reached.
    pub fn block_height(&self) -> (height: BlockHeight)
        ensures
            height == self@.height,
    {
        self.current_block_height
    }

    /// Returns true if there are no blocks in the ledger: that is, if the
    /// lookup of the latest block, whose outcome is `latest_block`, found none.
    pub fn is_empty<B, E>(&self, latest_block: &Result<B, E>) -> (empty: bool)
        ensures
            empty == (latest_block is Err),
    {
        latest_block.is_err()
    }

    /// Get the height of the best block on the chain from `stored`, the value
    /// that [`Read::best_block_number`] found in the store.
    pub fn get_best_block_number(&self, stored: &Option<Vec<u8>>) -> (height: Result<
        BlockHeight,
        LedgerError,
    >)
        ensures
            stored is None ==> height == Err::<BlockHeight, LedgerError>(
                LedgerError::MissingBestBlockNumber,
            ),
            stored matches Some(bytes) ==> (if bytes@.len() == 4 {
                height matches Ok(h) && h as int == crate::codec::le_u32(bytes@)
            } else {
                height == Err::<BlockHeight, LedgerError>(LedgerError::MalformedInteger)
            }),
    {
        match stored {
            None => Err(LedgerError::MissingBestBlockNumber),
            Some(bytes) => match bytes_to_u32(bytes.as_slice()) {
                Some(height) => Ok(height),
                None => Err(LedgerError::MalformedInteger),
            },
        }
    }

    /// The lookup that gets the stored old connected peers; its answer is the
    /// peer book as it was saved, if one was.
    pub fn get_peer_book(&self) -> (read: Read)
        ensures
            read.is_peer_book(),
    {
        Read::peer_book()
    }

    /// The transaction that stores the connected peers: it overwrites the one
    /// slot of the peer book with `peers_serialized`.
    pub fn save_peer_book_to_storage(&self, peers_serialized: Vec<u8>) -> (batch:
        DatabaseTransaction)
        ensures
            batch.saves_peer_book(peers_serialized@),
    {
        let op = Op::Insert {
            col: COL_META,
            key: slice_to_vec(KEY_PEER_BOOK.as_bytes()),
            value: peers_serialized,
        };
        let mut ops: Vec<Op> = Vec::with_capacity(1);
        ops.push(op);
        DatabaseTransaction(ops)
    }

    /// Begins an attempt to catch the secondary read-only instance up with a
    /// primary that stands at `primary_height`. Nothing is to be done unless
    /// the primary is ahead.
    pub fn catch_up_secondary(&self, update_merkle_tree: bool, primary_height: BlockHeight) -> (step:
        CatchUpStep)
        ensures
            step@ == self@.catch_up(update_merkle_tree, primary_height),
    {
        if primary_height > self.current_block_height {
            CatchUpStep::Ask(
                CatchUp::Syncing { update_merkle_tree, primary_height },
                CatchUpRequest::SyncWithPrimary,
            )
        } else {
            CatchUpStep::Done
        }
    }

    /// Goes on with a catch-up once the caller has found `answer` to the
    /// request that was pending.
    pub fn resume_catch_up(&mut self, pending: CatchUp, answer: CatchUpAnswer) -> (step:
        CatchUpStep)
        ensures
            (final(self)@, step@) == old(self)@.resume(pending@, answer@),
    {
        match (pending, answer) {
            (CatchUp::Syncing { .. }, CatchUpAnswer::Failed(_)) => CatchUpStep::Done,
            (CatchUp::Syncing { update_merkle_tree, primary_height }, CatchUpAnswer::Synced) => {
                self.current_block_height = primary_height;
                if update_merkle_tree {
                    CatchUpStep::Ask(CatchUp::Rebuilding, CatchUpRequest::ScanCommitments)
                } else {
                    CatchUpStep::Done
                }
            },
            (CatchUp::Rebuilding, CatchUpAnswer::Commitments(entries)) => {
                match order_commitments(&entries) {
                    Ok(leaves) => CatchUpStep::Ask(
                        CatchUp::Publishing { leaves },
                        CatchUpRequest::BuildTree,
                    ),
                    Err(e) => CatchUpStep::Failed(e),
                }
            },
            (CatchUp::Publishing { leaves }, CatchUpAnswer::TreeBuilt) => {
                self.cm_merkle_tree = leaves;
                CatchUpStep::Done
            },
            (CatchUp::Rebuilding, CatchUpAnswer::Failed(e)) => CatchUpStep::Failed(e),
            (CatchUp::Publishing { .. }, CatchUpAnswer::Failed(e)) => CatchUpStep::Failed(e),
            _ => CatchUpStep::Failed(LedgerError::UnexpectedAnswer),
        }
    }
}

/// A catch-up towards a height that the replica has already reached asks
/// nothing of the store, so the ledger stays as it is; and this holds again
/// for any later catch-up towards a height that is no greater.
pub proof fn lemma_catch_up_of_current_replica_is_a_no_op(
    state: LedgerState,
    update_merkle_tree: bool,
    first_height: BlockHeight,
    second_height: BlockHeight,
)
    requires
        second_height <= first_height <= state.height,
    ensures
        state.catch_up(update_merkle_tree, first_height) == CatchUpStepView::Done,
        state.catch_up(update_merkle_tree, second_height) == CatchUpStepView::Done,
{
}

/// A catch-up of a stale replica that updates the tree, whose store
/// synchronises, ends with the height of the primary and with the snapshot
/// rebuilt from what the commitment column then holds.
pub proof fn lemma_catch_up_adopts_primary(
    state: LedgerState,
    primary_height: BlockHeight,
    scan: Seq<(Seq<u8>, Seq<u8>)>,
)
    requires
        state.is_stale(primary_height),
        crate::scanner::well_encoded(scan),
    ensures
        ({
            let syncing = CatchUpView::Syncing { update_merkle_tree: true, primary_height };
            let publishing = CatchUpView::Publishing {
                leaves: crate::scanner::ordered_commitments(scan),
            };
            let (synced, second) = state.resume(syncing, CatchUpAnswerView::Synced);
            let (scanned, third) = synced.resume(
                CatchUpView::Rebuilding,
                CatchUpAnswerView::Commitments(scan),
            );
            let (rebuilt, last) = scanned.resume(publishing, CatchUpAnswerView::TreeBuilt);
            &&& state.catch_up(true, primary_height) == CatchUpStepView::Ask(
                syncing,
                CatchUpRequest::SyncWithPrimary,
            )
            &&& second == CatchUpStepView::Ask(
                CatchUpView::Rebuilding,
                CatchUpRequest::ScanCommitments,
            )
            &&& third == CatchUpStepView::Ask(publishing, CatchUpRequest::BuildTree)
            &&& last == CatchUpStepView::Done
            &&& rebuilt.height == primary_height
            &&& rebuilt.leaves == crate::scanner::ordered_commitments(scan)
        }),
{
}

/// A catch-up that does not update the tree adopts the height of the primary
/// once the store has synchronised, and keeps the snapshot.
pub proof fn lemma_catch_up_without_tree_keeps_snapshot(
    state: LedgerState,
    primary_height: BlockHeight,
)
    ensures
        ({
            let syncing = CatchUpView::Syncing { update_merkle_tree: false, primary_height };
            state.resume(syncing, CatchUpAnswerView::Synced) == (
                LedgerState { height: primary_height, leaves: state.leaves },
                CatchUpStepView::Done,
            )
        }),
{
}

/// A catch-up whose store fails to synchronise leaves the replica stale, at
/// the state it had, and reports no error.
pub proof fn lemma_failed_sync_changes_nothing(
    state: LedgerState,
    update_merkle_tree: bool,
    primary_height: BlockHeight,
    failure: LedgerError,
)
    ensures
        ({
            let syncing = CatchUpView::Syncing { update_merkle_tree, primary_height };
            state.resume(syncing, CatchUpAnswerView::Failed(failure)) == (
                state,
                CatchUpStepView::Done,
            )
        }),
{
}

} // verus!
