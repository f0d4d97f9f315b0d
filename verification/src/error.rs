use vstd::prelude::*;

verus! {

/// The ways in which reading ledger state can fail.
#[derive(Debug, Clone, Copy, PartialEq, Eq, Structural)]
pub enum LedgerError {
    /// The backing store could not be opened, read, written or synchronised.
    Storage,
    /// The metadata column holds no best block number although one is required.
    MissingBestBlockNumber,
    /// A stored integer does not have the fixed width of its encoding.
    MalformedInteger,
    /// The bytes of a commitment or of the genesis block could not be decoded.
    Decode,
    /// The accumulator tree could not be built over its leaves.
    Tree,
    /// The store that was to be created anew still holds a chain.
    ExistingChain,
    /// The answer handed in does not belong to the request that is pending.
    UnexpectedAnswer,
}

impl LedgerError {
    /// The text that describes this error.
    pub fn message(&self) -> (text: &'static str)
        ensures
            text@ == self.message_text(),
    {
        match self {
            LedgerError::Storage => "the storage operation failed",
            LedgerError::MissingBestBlockNumber => "Can't obtain the best block's number",
            LedgerError::MalformedInteger => "a stored integer has the wrong width",
            LedgerError::Decode => "the stored bytes could not be decoded",
            LedgerError::Tree => "the commitment tree could not be built",
            LedgerError::ExistingChain => "the store to be created anew holds a chain",
            LedgerError::UnexpectedAnswer => "the answer does not match the pending request",
        }
    }

    /// The characters of [`LedgerError::message`].
    pub open spec fn message_text(&self) -> Seq<char> {
        match self {
            LedgerError::Storage => "the storage operation failed"@,
            LedgerError::MissingBestBlockNumber => "Can't obtain the best block's number"@,
            LedgerError::MalformedInteger => "a stored integer has the wrong width"@,
            LedgerError::Decode => "the stored bytes could not be decoded"@,
            LedgerError::Tree => "the commitment tree could not be built"@,
            LedgerError::ExistingChain => "the store to be created anew holds a chain"@,
            LedgerError::UnexpectedAnswer => "the answer does not match the pending request"@,
        }
    }
}

} // verus!
