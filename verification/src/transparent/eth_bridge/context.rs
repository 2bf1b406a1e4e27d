//! The transaction that a precondition and witness are verified against.
use vstd::prelude::*;

verus! {

/// A TZE input of the transaction: the mode and payload of its witness.
pub struct TzeInput {
    pub witness_mode: u32,
    pub witness_payload: Vec<u8>,
}

/// A TZE output of the transaction: the mode and payload of its precondition.
pub struct TzeOutput {
    pub precondition_mode: u32,
    pub precondition_payload: Vec<u8>,
}

/// A transparent output of the transaction: its value in zatoshis and its `script_pubkey`.
pub struct TransparentOutput {
    pub value: u64,
    pub script_pubkey: Vec<u8>,
}

/// The parts of the transaction under validation that the `eth_bridge` rules read.
pub struct Context {
    pub is_tze_only: bool,
    pub tze_inputs: Vec<TzeInput>,
    pub tze_outputs: Vec<TzeOutput>,
    pub transparent_outputs: Vec<TransparentOutput>,
}

impl Context {
    /// Whether the transaction has no bundles other than TZE ones.
    pub fn is_tze_only(&self) -> (r: bool)
        ensures
            r == self.is_tze_only,
    {
        self.is_tze_only
    }

    /// The TZE inputs of the transaction.
    pub fn tx_tze_inputs(&self) -> (r: &[TzeInput])
        ensures
            r@ == self.tze_inputs@,
    {
        self.tze_inputs.as_slice()
    }

    /// The TZE outputs of the transaction.
    pub fn tx_tze_outputs(&self) -> (r: &[TzeOutput])
        ensures
            r@ == self.tze_outputs@,
    {
        self.tze_outputs.as_slice()
    }

    /// The transparent outputs of the transaction.
    pub fn tx_transparent_outputs(&self) -> (r: &[TransparentOutput])
        ensures
            r@ == self.transparent_outputs@,
    {
        self.transparent_outputs.as_slice()
    }
}

} // verus!
