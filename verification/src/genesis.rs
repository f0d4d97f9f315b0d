use snarkvm_parameters::testnet1::GenesisBlock;
use snarkvm_parameters::traits::genesis::Genesis;
use vstd::prelude::*;

verus! {

/// Length in bytes of the serialized genesis block.
pub const GENESIS_BLOCK_SIZE: usize = 2627;

/// Calls `snarkvm_parameters::testnet1::GenesisBlock::load_bytes`, which puts
/// together the serialized genesis block from the header and the single
/// transaction that the parameters crate embeds. Taken on trust: that the
/// result has the length the crate declares as `GenesisBlock::SIZE`.
#[verifier::external_body]
pub(crate) fn load_genesis_block() -> (bytes: Vec<u8>)
    ensures
        bytes@.len() == GENESIS_BLOCK_SIZE,
{
    GenesisBlock::load_bytes()
}

} // verus!
