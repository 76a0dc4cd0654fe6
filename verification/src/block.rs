//! Blocks and the block assembler: a batch of submitted transactions becomes
//! one ordered block, and every decoded transaction is recorded in the index
//! on the way.

use vstd::prelude::*;
use crate::error::BridgeError;
use crate::hash::HashValue;
use crate::index::TransactionIndex;
use crate::ledger::copy_bytes;

verus! {

/// The synthetic transaction that opens a block.
#[derive(Debug, PartialEq, Eq)]
pub struct BlockMetadata {
    pub id: HashValue,
    pub epoch: u64,
    pub round: u64,
    pub proposer: Vec<u8>,
    pub previous_block_votes: Vec<u8>,
    pub failed_proposers: Vec<u32>,
    pub timestamp: u64,
}

/// Mathematical model of a [`BlockMetadata`].
pub struct BlockMetadataView {
    pub id: Seq<u8>,
    pub epoch: u64,
    pub round: u64,
    pub proposer: Seq<u8>,
    pub previous_block_votes: Seq<u8>,
    pub failed_proposers: Seq<u32>,
    pub timestamp: u64,
}

impl View for BlockMetadata {
    type V = BlockMetadataView;

    open spec fn view(&self) -> BlockMetadataView {
        BlockMetadataView {
            id: self.id@,
            epoch: self.epoch,
            round: self.round,
            proposer: self.proposer@,
            previous_block_votes: self.previous_block_votes@,
            failed_proposers: self.failed_proposers@,
            timestamp: self.timestamp,
        }
    }
}

/// A unit of work inside a block.
#[derive(Debug, PartialEq, Eq)]
pub enum Transaction {
    /// Opens the block and carries its context.
    BlockMetadata(BlockMetadata),
    /// A submitted transaction, as the bytes it came in.
    Ordinary(Vec<u8>),
    /// Closes the block.
    StateCheckpoint(HashValue),
}

/// Mathematical model of a [`Transaction`].
pub enum TransactionView {
    BlockMetadata(BlockMetadataView),
    Ordinary(Seq<u8>),
    StateCheckpoint(Seq<u8>),
}

impl View for Transaction {
    type V = TransactionView;

    open spec fn view(&self) -> TransactionView {
        match self {
            Transaction::BlockMetadata(m) => TransactionView::BlockMetadata(m@),
            Transaction::Ordinary(raw) => TransactionView::Ordinary(raw@),
            Transaction::StateCheckpoint(h) => TransactionView::StateCheckpoint(h@),
        }
    }
}

/// An ordered block, identified by `id` and built on `parent_id`.
#[derive(Debug, PartialEq, Eq)]
pub struct Block {
    pub id: HashValue,
    pub parent_id: HashValue,
    pub transactions: Vec<Transaction>,
}

/// Mathematical model of a [`Block`].
pub struct BlockView {
    pub id: Seq<u8>,
    pub parent_id: Seq<u8>,
    pub transactions: Seq<TransactionView>,
}

impl BlockView {
    /// One metadata transaction first, one checkpoint last, submitted
    /// transactions in between.
    pub open spec fn well_formed(self) -> bool {
        let n = self.transactions.len();
        &&& n >= 2
        &&& self.transactions[0] is BlockMetadata
        &&& self.transactions[n - 1] is StateCheckpoint
        &&& forall|i: int| 0 < i < n - 1 ==> (#[trigger] self.transactions[i]) is Ordinary
    }
}

impl View for Block {
    type V = BlockView;

    open spec fn view(&self) -> BlockView {
        BlockView {
            id: self.id@,
            parent_id: self.parent_id@,
            transactions: Seq::new(self.transactions@.len(), |i: int| self.transactions@[i]@),
        }
    }
}

/// The batch as byte strings.
pub open spec fn batch_view(txs: Seq<Vec<u8>>) -> Seq<Seq<u8>> {
    Seq::new(txs.len(), |i: int| txs[i]@)
}

/// The decode outcomes as character strings.
pub open spec fn digests_view(digests: Seq<Option<String>>) -> Seq<Option<Seq<char>>> {
    Seq::new(
        digests.len(),
        |i: int|
            match digests[i] {
                Some(k) => Some(k@),
                None => None,
            },
    )
}

/// Transaction `i` of a batch decodes when a content hash is known for it.
pub open spec fn decodes(digests: Seq<Option<Seq<char>>>, i: int) -> bool {
    0 <= i < digests.len() && digests[i] is Some
}

/// How many transactions at the head of a batch of `n` decode: the position
/// of the first one that does not, or `n`.
pub open spec fn decoded_prefix(digests: Seq<Option<Seq<char>>>, n: int) -> int
    decreases n,
{
    if n <= 0 {
        0
    } else {
        let p = decoded_prefix(digests, n - 1);
        if p == n - 1 && decodes(digests, n - 1) {
            n
        } else {
            p
        }
    }
}

/// The index after the first `n` transactions of a batch were recorded, each
/// under its content hash, in submission order.
pub open spec fn recorded(
    index: Map<Seq<char>, Seq<u8>>,
    batch: Seq<Seq<u8>>,
    digests: Seq<Option<Seq<char>>>,
    n: int,
) -> Map<Seq<char>, Seq<u8>>
    decreases n,
{
    if n <= 0 {
        index
    } else {
        recorded(index, batch, digests, n - 1).insert(digests[n - 1]->0, batch[n - 1])
    }
}

/// The block that a fully decoded batch makes.
pub open spec fn assembled(
    id: Seq<u8>,
    checkpoint: Seq<u8>,
    parent: Seq<u8>,
    epoch: u64,
    proposer: Seq<u8>,
    timestamp: u64,
    batch: Seq<Seq<u8>>,
) -> BlockView {
    let metadata = BlockMetadataView {
        id,
        epoch,
        round: 0,
        proposer,
        previous_block_votes: Seq::empty(),
        failed_proposers: Seq::empty(),
        timestamp,
    };
    BlockView {
        id,
        parent_id: parent,
        transactions: seq![TransactionView::BlockMetadata(metadata)] + batch.map_values(
            |raw: Seq<u8>| TransactionView::Ordinary(raw),
        ) + seq![TransactionView::StateCheckpoint(checkpoint)],
    }
}

/// The position of the first transaction that does not decode bounds the
/// prefix, and everything before it decodes.
pub proof fn lemma_decoded_prefix(digests: Seq<Option<Seq<char>>>, n: int)
    requires
        0 <= n,
    ensures
        0 <= decoded_prefix(digests, n) <= n,
        forall|i: int| 0 <= i < decoded_prefix(digests, n) ==> decodes(digests, i),
        decoded_prefix(digests, n) < n ==> !decodes(digests, decoded_prefix(digests, n)),
    decreases n,
{
    if n > 0 {
        lemma_decoded_prefix(digests, n - 1);
    }
}

/// Recording only adds keys, and every transaction recorded is found under
/// its content hash afterwards.
pub proof fn lemma_recorded(
    index: Map<Seq<char>, Seq<u8>>,
    batch: Seq<Seq<u8>>,
    digests: Seq<Option<Seq<char>>>,
    n: int,
)
    requires
        0 <= n,
    ensures
        forall|k: Seq<char>| index.dom().contains(k) ==> recorded(index, batch, digests, n).dom().contains(k),
        forall|i: int| 0 <= i < n ==> recorded(index, batch, digests, n).dom().contains(#[trigger] digests[i]->0),
    decreases n,
{
    if n > 0 {
        lemma_recorded(index, batch, digests, n - 1);
    }
}

/// Position of the last of the first `n` transactions whose content hash
/// is `k`, or -1.
pub open spec fn last_with(digests: Seq<Option<Seq<char>>>, k: Seq<char>, n: int) -> int
    decreases n,
{
    if n <= 0 {
        -1
    } else if digests[n - 1] == Some(k) {
        n - 1
    } else {
        last_with(digests, k, n - 1)
    }
}

/// What is found under a key after recording: the bytes of the last
/// transaction with that content hash, or what was there before.
pub proof fn lemma_recorded_lookup(
    index: Map<Seq<char>, Seq<u8>>,
    batch: Seq<Seq<u8>>,
    digests: Seq<Option<Seq<char>>>,
    n: int,
    k: Seq<char>,
)
    requires
        0 <= n,
        forall|i: int| 0 <= i < n ==> decodes(digests, i),
    ensures
        -1 <= last_with(digests, k, n) < n,
        last_with(digests, k, n) >= 0 ==> {
            &&& digests[last_with(digests, k, n)] == Some(k)
            &&& recorded(index, batch, digests, n).dom().contains(k)
            &&& recorded(index, batch, digests, n)[k] == batch[last_with(digests, k, n)]
        },
        last_with(digests, k, n) < 0 ==> {
            &&& forall|i: int| 0 <= i < n ==> digests[i] != Some(k)
            &&& recorded(index, batch, digests, n).dom().contains(k) == index.dom().contains(k)
            &&& index.dom().contains(k) ==> recorded(index, batch, digests, n)[k] == index[k]
        },
        forall|i: int| last_with(digests, k, n) < i < n ==> digests[i] != Some(k),
    decreases n,
{
    if n > 0 {
        assert(decodes(digests, n - 1));
        lemma_recorded_lookup(index, batch, digests, n - 1, k);
    }
}

/// The content hashes of the first `n` transactions of a batch.
pub open spec fn hashes(digests: Seq<Option<Seq<char>>>, n: int) -> Set<Seq<char>>
    decreases n,
{
    if n <= 0 {
        Set::empty()
    } else {
        hashes(digests, n - 1).insert(digests[n - 1]->0)
    }
}

/// Equal content hashes stand for equal bytes, among the first `n`
/// transactions of a batch.
pub open spec fn content_addressed(
    batch: Seq<Seq<u8>>,
    digests: Seq<Option<Seq<char>>>,
    n: int,
) -> bool {
    forall|i: int, j: int|
        0 <= i < n && 0 <= j < n && #[trigger] digests[i] == #[trigger] digests[j] ==> batch[i]
            == batch[j]
}

/// The content hashes of a batch are finitely many, each transaction's hash
/// is among them, and every one of them is the hash of a transaction.
pub proof fn lemma_hashes(digests: Seq<Option<Seq<char>>>, n: int, k: Seq<char>)
    requires
        0 <= n,
        forall|i: int| 0 <= i < n ==> decodes(digests, i),
    ensures
        hashes(digests, n).finite(),
        hashes(digests, n).len() <= n,
        forall|i: int| 0 <= i < n ==> hashes(digests, n).contains(#[trigger] digests[i]->0),
        hashes(digests, n).contains(k) <==> last_with(digests, k, n) >= 0,
    decreases n,
{
    if n > 0 {
        assert(decodes(digests, n - 1));
        lemma_hashes(digests, n - 1, k);
    }
}

/// After recording, the keys are the keys from before and the content hashes
/// of what was recorded. Their number grows by the number of content hashes
/// that were no keys before.
pub proof fn lemma_recorded_keys(
    index: Map<Seq<char>, Seq<u8>>,
    batch: Seq<Seq<u8>>,
    digests: Seq<Option<Seq<char>>>,
    n: int,
)
    requires
        0 <= n,
        forall|i: int| 0 <= i < n ==> decodes(digests, i),
    ensures
        recorded(index, batch, digests, n).dom() == index.dom().union(hashes(digests, n)),
        index.dom().finite() ==> recorded(index, batch, digests, n).dom().finite()
            && recorded(index, batch, digests, n).dom().len() == index.dom().len() + hashes(
            digests,
            n,
        ).difference(index.dom()).len(),
    decreases n,
{
    if n > 0 {
        assert(decodes(digests, n - 1));
        lemma_recorded_keys(index, batch, digests, n - 1);
    }
    let after = recorded(index, batch, digests, n).dom();
    let new = hashes(digests, n).difference(index.dom());
    assert(after =~= index.dom().union(hashes(digests, n)));
    if index.dom().finite() {
        lemma_hashes(digests, n, Seq::empty());
        assert(after =~= index.dom() + new);
        assert(index.dom().disjoint(new));
        vstd::set_lib::lemma_len_difference(hashes(digests, n), index.dom());
        assert(new.finite()) by {
            vstd::set_lib::lemma_len_subset(new, hashes(digests, n));
        }
        vstd::set_lib::lemma_set_disjoint_lens(index.dom(), new);
    }
}

/// Recording looks at the first `n` transactions only.
pub proof fn lemma_recorded_prefix(
    index: Map<Seq<char>, Seq<u8>>,
    batch: Seq<Seq<u8>>,
    digests: Seq<Option<Seq<char>>>,
    other_batch: Seq<Seq<u8>>,
    other_digests: Seq<Option<Seq<char>>>,
    n: int,
)
    requires
        0 <= n,
        forall|i: int| 0 <= i < n ==> batch[i] == other_batch[i] && digests[i] == other_digests[i],
    ensures
        recorded(index, batch, digests, n) == recorded(index, other_batch, other_digests, n),
    decreases n,
{
    if n > 0 {
        lemma_recorded_prefix(index, batch, digests, other_batch, other_digests, n - 1);
    }
}

/// Recording a batch is recording its head and then its tail.
pub proof fn lemma_recorded_split(
    index: Map<Seq<char>, Seq<u8>>,
    batch: Seq<Seq<u8>>,
    digests: Seq<Option<Seq<char>>>,
    n: int,
    m: int,
)
    requires
        0 <= n,
        0 <= m,
        n + m <= batch.len(),
        n + m <= digests.len(),
    ensures
        recorded(index, batch, digests, n + m) == recorded(
            recorded(index, batch, digests, n),
            batch.skip(n),
            digests.skip(n),
            m,
        ),
    decreases m,
{
    if m > 0 {
        lemma_recorded_split(index, batch, digests, n, m - 1);
    }
}

/// Recording the same transactions a second time changes nothing.
pub proof fn lemma_recorded_twice(
    index: Map<Seq<char>, Seq<u8>>,
    batch: Seq<Seq<u8>>,
    digests: Seq<Option<Seq<char>>>,
    n: int,
)
    requires
        0 <= n,
        forall|i: int| 0 <= i < n ==> decodes(digests, i),
    ensures
        recorded(recorded(index, batch, digests, n), batch, digests, n) == recorded(
            index,
            batch,
            digests,
            n,
        ),
{
    let once = recorded(index, batch, digests, n);
    let twice = recorded(once, batch, digests, n);
    assert forall|k: Seq<char>| #[trigger] twice.dom().contains(k) == once.dom().contains(k) by {
        lemma_recorded_lookup(index, batch, digests, n, k);
        lemma_recorded_lookup(once, batch, digests, n, k);
    }
    assert forall|k: Seq<char>| once.dom().contains(k) implies #[trigger] twice[k] == once[k] by {
        lemma_recorded_lookup(index, batch, digests, n, k);
        lemma_recorded_lookup(once, batch, digests, n, k);
    }
    assert(twice.dom() =~= once.dom());
    assert(twice =~= once);
}

/// A batch in which every transaction decodes is taken whole.
pub proof fn lemma_all_decoded(digests: Seq<Option<Seq<char>>>, n: int)
    requires
        0 <= n,
        forall|i: int| 0 <= i < n ==> decodes(digests, i),
    ensures
        decoded_prefix(digests, n) == n,
    decreases n,
{
    if n > 0 {
        assert(decodes(digests, n - 1));
        lemma_all_decoded(digests, n - 1);
    }
}

/// An assembled block opens with its metadata, closes with its checkpoint
/// and holds the submitted transactions in between, in submission order.
pub proof fn lemma_assembled_shape(
    id: Seq<u8>,
    checkpoint: Seq<u8>,
    parent: Seq<u8>,
    epoch: u64,
    proposer: Seq<u8>,
    timestamp: u64,
    batch: Seq<Seq<u8>>,
)
    ensures
        assembled(id, checkpoint, parent, epoch, proposer, timestamp, batch).well_formed(),
        assembled(id, checkpoint, parent, epoch, proposer, timestamp, batch).transactions.len()
            == batch.len() + 2,
        forall|i: int|
            0 <= i < batch.len() ==> (#[trigger] assembled(
                id,
                checkpoint,
                parent,
                epoch,
                proposer,
                timestamp,
                batch,
            ).transactions[i + 1]) == TransactionView::Ordinary(batch[i]),
        assembled(id, checkpoint, parent, epoch, proposer, timestamp, batch).transactions[batch.len()
            as int + 1] == TransactionView::StateCheckpoint(checkpoint),
{
}

/// Turns a batch into a block.
///
/// The transactions are taken in submission order. `digests[i]` is the
/// rendered content hash of transaction `i`, or `None` where its bytes did
/// not decode; a transaction without one counts as undecodable. Each
/// transaction that decodes is recorded in `index` at once, until the first
/// that does not: that one fails the whole batch, and what was recorded
/// before it stays recorded.
pub fn assemble_block(
    index: &mut TransactionIndex,
    id: HashValue,
    checkpoint: HashValue,
    parent: HashValue,
    epoch: u64,
    proposer: Vec<u8>,
    timestamp: u64,
    batch: Vec<Vec<u8>>,
    digests: &Vec<Option<String>>,
) -> (r: Result<Block, BridgeError>)
    ensures
        final(index)@ == recorded(
            old(index)@,
            batch_view(batch@),
            digests_view(digests@),
            decoded_prefix(digests_view(digests@), batch@.len() as int),
        ),
        r is Ok <==> decoded_prefix(digests_view(digests@), batch@.len() as int) == batch@.len(),
        r matches Ok(block) ==> block@ == assembled(
            id@,
            checkpoint@,
            parent@,
            epoch,
            proposer@,
            timestamp,
            batch_view(batch@),
        ),
        r matches Ok(block) ==> block@.well_formed(),
        r matches Err(e) ==> e == BridgeError::DecodeError,
{
    let ghost views = batch_view(batch@);
    let ghost keys = digests_view(digests@);
    let ghost before = index@;
    let metadata = BlockMetadata {
        id,
        epoch,
        round: 0,
        proposer,
        previous_block_votes: Vec::new(),
        failed_proposers: Vec::new(),
        timestamp,
    };
    let ghost first = TransactionView::BlockMetadata(metadata@);
    let mut transactions: Vec<Transaction> = Vec::new();
    transactions.push(Transaction::BlockMetadata(metadata));
    let mut i: usize = 0;
    while i < batch.len()
        invariant
            i <= batch.len(),
            views == batch_view(batch@),
            keys == digests_view(digests@),
            before == old(index)@,
            decoded_prefix(keys, i as int) == i,
            index@ == recorded(before, views, keys, i as int),
            transactions@.len() == i + 1,
            transactions@[0]@ == first,
            forall|j: int| 0 <= j < i ==> (#[trigger] transactions@[j + 1])@ == TransactionView::Ordinary(views[j]),
        decreases batch.len() - i,
    {
        if i >= digests.len() {
            proof {
                lemma_stuck(keys, i as int, batch@.len() as int);
            }
            return Err(BridgeError::DecodeError);
        }
        match &digests[i] {
            None => {
                proof {
                    lemma_stuck(keys, i as int, batch@.len() as int);
                }
                return Err(BridgeError::DecodeError);
            },
            Some(key) => {
                let raw = copy_bytes(&batch[i]);
                index.insert(key.clone(), raw);
                transactions.push(Transaction::Ordinary(copy_bytes(&batch[i])));
            },
        }
        i = i + 1;
    }
    transactions.push(Transaction::StateCheckpoint(checkpoint));
    let block = Block { id, parent_id: parent, transactions };
    proof {
        let want = assembled(id@, checkpoint@, parent@, epoch, metadata@.proposer, timestamp, views);
        assert(block@.transactions.len() == want.transactions.len());
        assert forall|j: int| 0 <= j < want.transactions.len() implies block@.transactions[j]
            == want.transactions[j] by {
            if 0 < j < want.transactions.len() - 1 {
                assert(block.transactions@[(j - 1) + 1]@ == TransactionView::Ordinary(views[j - 1]));
            }
        }
        assert(block@.transactions =~= want.transactions);
        lemma_assembled_shape(id@, checkpoint@, parent@, epoch, metadata@.proposer, timestamp, views);
    }
    Ok(block)
}

/// Once a transaction fails to decode, the prefix grows no further.
proof fn lemma_stuck(digests: Seq<Option<Seq<char>>>, i: int, n: int)
    requires
        0 <= i < n,
        decoded_prefix(digests, i) == i,
        !decodes(digests, i),
    ensures
        decoded_prefix(digests, n) == i,
    decreases n,
{
    if n > i + 1 {
        lemma_stuck(digests, i, n - 1);
    }
}

} // verus!
