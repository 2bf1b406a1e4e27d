//! Transaction building for the `eth_bridge` extension: the decisions that its builder
//! takes about which preconditions and witnesses go into a transaction.
use vstd::prelude::*;

use crate::transparent::eth_bridge::error::Error;
use crate::transparent::eth_bridge::modes::{create, deposit, stf};
use crate::transparent::eth_bridge::precondition::{
    lemma_precondition_payload_canonical, lemma_precondition_payload_roundtrip, Precondition,
};
use crate::transparent::eth_bridge::witness::{Witness, WitnessView};

verus! {

/// Wrapper for a transaction builder that simplifies constructing transactions that
/// utilize the features of the `eth_bridge` extension.
pub struct EthBridgeTzeBuilder<B> {
    /// The wrapped transaction builder.
    pub txn_builder: B,
    /// The assigned identifier for this extension. This is necessary as the author
    /// of the `eth_bridge` extension will not know ahead of time what identifier will be
    /// assigned to it at the time of inclusion in the Zcash consensus rules.
    pub extension_id: u32,
}

impl<B> core::ops::Deref for EthBridgeTzeBuilder<B> {
    type Target = B;

    fn deref(&self) -> (r: &B)
        ensures
            *r == self.txn_builder,
    {
        &self.txn_builder
    }
}

impl<B> core::ops::DerefMut for EthBridgeTzeBuilder<B> {
    fn deref_mut(&mut self) -> (r: &mut B)
        ensures
            *r == old(self).txn_builder,
            final(self).txn_builder == *final(r),
            final(self).extension_id == old(self).extension_id,
    {
        &mut self.txn_builder
    }
}

/// Errors that can occur in construction of transactions using `EthBridgeTze`.
#[derive(Debug)]
pub enum EthBridgeTzeBuildError<E> {
    /// Wrapper for errors returned from the underlying builder.
    BaseBuilderError(E),
    ParseError(Error),
}

/// What the builder decides when asked to spend a previous output whose precondition has
/// mode `mode` and payload `payload` with the witness `witness` of mode `expected_mode`:
/// the precondition's parse error if it does not parse, `ModeInvalid(mode)` if it parses
/// to a precondition of another mode, and otherwise the witness.
pub open spec fn spec_input_witness(
    expected_mode: u32,
    mode: u32,
    payload: Seq<u8>,
    witness: WitnessView,
) -> Result<WitnessView, Error> {
    match Precondition::spec_from_payload(mode, payload) {
        Err(e) => Err(e),
        Ok(p) => if p.spec_mode() == expected_mode {
            Ok(witness)
        } else {
            Err(Error::ModeInvalid(mode))
        },
    }
}

/// The witness that consumes a create-mode output whose precondition has mode `mode`
/// and payload `payload` (the decision of `add_create_input`).
pub fn create_input_witness(mode: u32, payload: &[u8]) -> (res: Result<Witness, Error>)
    ensures
        match res {
            Ok(w) => spec_input_witness(create::MODE, mode, payload@, WitnessView::Create) == Ok::<
                WitnessView,
                Error,
            >(w@),
            Err(e) => spec_input_witness(create::MODE, mode, payload@, WitnessView::Create)
                == Err::<WitnessView, Error>(e),
        },
{
    match Precondition::from_payload(mode, payload) {
        Err(parse_error) => Err(parse_error),
        Ok(Precondition::Create(_)) => Ok(Witness::create()),
        Ok(_) => Err(Error::ModeInvalid(mode)),
    }
}

/// The witness that consumes a deposit-mode output whose precondition has mode `mode`
/// and payload `payload` (the decision of `add_deposit_input`).
pub fn deposit_input_witness(mode: u32, payload: &[u8]) -> (res: Result<Witness, Error>)
    ensures
        match res {
            Ok(w) => spec_input_witness(deposit::MODE, mode, payload@, WitnessView::Deposit)
                == Ok::<WitnessView, Error>(w@),
            Err(e) => spec_input_witness(deposit::MODE, mode, payload@, WitnessView::Deposit)
                == Err::<WitnessView, Error>(e),
        },
{
    match Precondition::from_payload(mode, payload) {
        Err(parse_error) => Err(parse_error),
        Ok(Precondition::Deposit(_)) => Ok(Witness::deposit()),
        Ok(_) => Err(Error::ModeInvalid(mode)),
    }
}

/// The STF witness built from the given update that consumes an STF-mode output whose
/// precondition has mode `mode` and payload `payload` (the decision of `add_stf_input`).
pub fn stf_input_witness(
    mode: u32,
    payload: &[u8],
    stf_identifier: [u8; 32],
    root_hash: [u8; 32],
    processed_deposits: Vec<stf::ProcessedDeposit>,
    processed_withdrawals: Vec<stf::ProcessedWithdrawal>,
) -> (res: Result<Witness, Error>)
    ensures
        ({
            let w = WitnessView::Stf(
                stf::WitnessView {
                    new_root_hash: root_hash,
                    stf_identifier,
                    processed_deposits: processed_deposits@,
                    processed_withdrawals: processed_withdrawals@,
                },
            );
            match res {
                Ok(r) => spec_input_witness(stf::MODE, mode, payload@, w) == Ok::<
                    WitnessView,
                    Error,
                >(r@),
                Err(e) => spec_input_witness(stf::MODE, mode, payload@, w) == Err::<
                    WitnessView,
                    Error,
                >(e),
            }
        }),
{
    let witness = stf::Witness {
        stf_identifier,
        new_root_hash: root_hash,
        processed_deposits,
        processed_withdrawals,
    };
    match Precondition::from_payload(mode, payload) {
        Err(parse_error) => Err(parse_error),
        Ok(Precondition::Stf(_)) => Ok(Witness::Stf(witness)),
        Ok(_) => Err(Error::ModeInvalid(mode)),
    }
}

/// The builder spends the outputs that it makes: a previous output whose precondition is
/// `precondition`, written by its mode number and payload, is spent with any witness of
/// the same mode.
pub proof fn lemma_builder_spends_own_outputs(precondition: Precondition, witness: WitnessView)
    requires
        precondition.spec_mode() == witness.spec_mode(),
    ensures
        spec_input_witness(
            witness.spec_mode(),
            precondition.spec_mode(),
            precondition.spec_payload(),
            witness,
        ) == Ok::<WitnessView, Error>(witness),
{
    lemma_precondition_payload_roundtrip(precondition);
}

/// The builder attaches a witness only to a previous output whose precondition parses,
/// and parses to a precondition of the witness's mode.
pub proof fn lemma_builder_checks_prevout(
    expected_mode: u32,
    mode: u32,
    payload: Seq<u8>,
    witness: WitnessView,
)
    requires
        spec_input_witness(expected_mode, mode, payload, witness) is Ok,
    ensures
        mode == expected_mode,
        Precondition::spec_from_payload(mode, payload) is Ok,
        Precondition::spec_from_payload(mode, payload)->Ok_0.spec_payload() == payload,
{
    lemma_precondition_payload_canonical(mode, payload);
}

} // verus!
