use vstd::prelude::*;
use vstd::slice::*;
use vstd::string::*;

verus! {

/// The column that holds the singleton metadata entries.
pub const COL_META: u32 = 0;

/// The column that maps the bytes of a commitment to its encoded index.
pub const COL_COMMITMENT: u32 = 5;

/// The metadata key under which the height of the best block is stored.
pub const KEY_BEST_BLOCK_NUMBER: &'static str = "BEST_BLOCK_NUMBER";

/// The metadata key under which the serialized peer book is stored.
pub const KEY_PEER_BOOK: &'static str = "PEER_BOOK";

/// What is appended to the path of a primary store to name the marker
/// directory of its read-only secondaries.
pub const SECONDARY_SUFFIX: &'static str = "_secondary";

/// The lookup of one key in one column of the store.
#[derive(Debug, Clone, PartialEq, Eq)]
pub struct Read {
    pub col: u32,
    pub key: Vec<u8>,
}

/// One write to the store.
#[derive(Debug, Clone, PartialEq, Eq)]
pub enum Op {
    Insert { col: u32, key: Vec<u8>, value: Vec<u8> },
    Delete { col: u32, key: Vec<u8> },
}

/// Writes that the store commits together or not at all.
#[derive(Debug, Clone, PartialEq, Eq)]
pub struct DatabaseTransaction(pub Vec<Op>);

/// What a store holds: the value under each column and key that is present.
pub type Contents = Map<(u32, Seq<u8>), Seq<u8>>;

impl Read {
    /// The value that the lookup finds in a store with the given contents.
    pub open spec fn answer(self, contents: Contents) -> Option<Seq<u8>> {
        if contents.contains_key((self.col, self.key@)) {
            Some(contents[(self.col, self.key@)])
        } else {
            None
        }
    }

    /// This lookup asks for the height of the best block.
    pub open spec fn is_best_block_number(self) -> bool {
        self.col == COL_META && self.key@ == KEY_BEST_BLOCK_NUMBER.spec_bytes()
    }

    /// This lookup asks for the stored peer book.
    pub open spec fn is_peer_book(self) -> bool {
        self.col == COL_META && self.key@ == KEY_PEER_BOOK.spec_bytes()
    }

    /// The lookup of the height of the best block.
    pub fn best_block_number() -> (read: Read)
        ensures
            read.is_best_block_number(),
    {
        Read { col: COL_META, key: slice_to_vec(KEY_BEST_BLOCK_NUMBER.as_bytes()) }
    }

    /// The lookup of the stored peer book.
    pub fn peer_book() -> (read: Read)
        ensures
            read.is_peer_book(),
    {
        Read { col: COL_META, key: slice_to_vec(KEY_PEER_BOOK.as_bytes()) }
    }
}

impl Op {
    /// The contents of a store after this write.
    pub open spec fn apply(self, contents: Contents) -> Contents {
        match self {
            Op::Insert { col, key, value } => contents.insert((col, key@), value@),
            Op::Delete { col, key } => contents.remove((col, key@)),
        }
    }
}

/// The contents of a store after the writes `ops`, made in order.
pub open spec fn apply_all(ops: Seq<Op>, contents: Contents) -> Contents
    decreases ops.len(),
{
    if ops.len() == 0 {
        contents
    } else {
        ops.last().apply(apply_all(ops.drop_last(), contents))
    }
}

impl DatabaseTransaction {
    /// The contents of a store after it has committed this transaction.
    pub open spec fn apply(self, contents: Contents) -> Contents {
        apply_all(self.0@, contents)
    }

    /// This transaction does one thing: it puts `peers` into the slot of the
    /// peer book.
    pub open spec fn saves_peer_book(self, peers: Seq<u8>) -> bool {
        &&& self.0@.len() == 1
        &&& self.0@[0] matches Op::Insert { col, key, value }
        &&& col == COL_META
        &&& key@ == KEY_PEER_BOOK.spec_bytes()
        &&& value@ == peers
    }
}

/// Whatever a store held, once it has committed the transaction that saves a
/// peer book, the lookup of the peer book finds the bytes that were saved.
pub proof fn lemma_saved_peer_book_is_read_back(
    contents: Contents,
    batch: DatabaseTransaction,
    read: Read,
    peers: Seq<u8>,
)
    requires
        batch.saves_peer_book(peers),
        read.is_peer_book(),
    ensures
        read.answer(batch.apply(contents)) == Some(peers),
{
    assert(batch.0@.drop_last().len() == 0);
    assert(apply_all(batch.0@.drop_last(), contents) == contents);
    assert(apply_all(batch.0@, contents) == batch.0@.last().apply(contents));
}

/// A later save replaces the peer book of an earlier one.
pub proof fn lemma_peer_book_is_overwritten(
    contents: Contents,
    first: DatabaseTransaction,
    second: DatabaseTransaction,
    read: Read,
    old_peers: Seq<u8>,
    new_peers: Seq<u8>,
)
    requires
        first.saves_peer_book(old_peers),
        second.saves_peer_book(new_peers),
        read.is_peer_book(),
    ensures
        read.answer(second.apply(first.apply(contents))) == Some(new_peers),
{
    lemma_saved_peer_book_is_read_back(first.apply(contents), second, read, new_peers);
}

/// The keys of the metadata entries are the ASCII bytes of their names.
pub proof fn lemma_metadata_keys()
    ensures
        KEY_BEST_BLOCK_NUMBER.spec_bytes() == seq![
            66u8, 69, 83, 84, 95, 66, 76, 79, 67, 75, 95, 78, 85, 77, 66, 69, 82,
        ],
        KEY_PEER_BOOK.spec_bytes() == seq![80u8, 69, 69, 82, 95, 66, 79, 79, 75],
        KEY_BEST_BLOCK_NUMBER.spec_bytes() != KEY_PEER_BOOK.spec_bytes(),
{
    reveal_strlit("BEST_BLOCK_NUMBER");
    reveal_strlit("PEER_BOOK");
    assert(is_ascii(KEY_BEST_BLOCK_NUMBER));
    assert(is_ascii(KEY_PEER_BOOK));
    is_ascii_spec_bytes(KEY_BEST_BLOCK_NUMBER);
    is_ascii_spec_bytes(KEY_PEER_BOOK);
    assert(KEY_BEST_BLOCK_NUMBER.spec_bytes() =~= seq![
        66u8, 69, 83, 84, 95, 66, 76, 79, 67, 75, 95, 78, 85, 77, 66, 69, 82,
    ]);
    assert(KEY_PEER_BOOK.spec_bytes() =~= seq![80u8, 69, 69, 82, 95, 66, 79, 79, 75]);
    assert(KEY_PEER_BOOK.spec_bytes().len() == 9);
}

} // verus!
