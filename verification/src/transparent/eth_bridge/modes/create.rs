//! Create mode is meant to "claim" an STF identified by a unique identifier
//! The unique identifier is required, since multiple STFs can be instantiated,
//! and we need a measure to make sure that deposits can only be claimed
//! by the correct STF instance.
use vstd::prelude::*;

use crate::transparent::eth_bridge::encoding::{array_at, array_of, lemma_array_of, lemma_array_of_view, push_all};
use crate::transparent::eth_bridge::context::Context;
use crate::transparent::eth_bridge::error::{outcome, Error, ErrorModel};
use crate::transparent::eth_bridge::precondition::Precondition as PreconditionEnum;

verus! {

/// The mode number of the create mode.
pub const MODE: u32 = 0;

/// The precondition of a create-mode output: the STF it claims and its initial root hash.
#[derive(Debug, PartialEq, Eq)]
pub struct Precondition {
    pub stf_identifier: [u8; 32],
    pub root_hash: [u8; 32],
}

impl Precondition {
    pub fn new(stf_identifier: [u8; 32], root_hash: [u8; 32]) -> (p: Self)
        ensures
            p.stf_identifier == stf_identifier,
            p.root_hash == root_hash,
    {
        Precondition { stf_identifier, root_hash }
    }

    /// The payload of `self`: the STF identifier, then the root hash.
    pub open spec fn spec_payload(self) -> Seq<u8> {
        self.stf_identifier@ + self.root_hash@
    }

    /// The precondition that `payload` encodes: exactly 64 bytes, read as the STF
    /// identifier and the root hash.
    pub open spec fn spec_from_bytes(payload: Seq<u8>) -> Result<Self, Error> {
        if payload.len() != 64 {
            Err(Error::IllegalPayloadLength(payload.len() as usize))
        } else {
            Ok(
                Precondition {
                    stf_identifier: array_of::<32>(payload.subrange(0, 32)),
                    root_hash: array_of::<32>(payload.subrange(32, 64)),
                },
            )
        }
    }

    pub fn to_payload(&self) -> (payload: Vec<u8>)
        ensures
            payload@ == self.spec_payload(),
    {
        let mut payload = Vec::with_capacity(64);
        push_all(&mut payload, &self.stf_identifier);
        push_all(&mut payload, &self.root_hash);
        payload
    }

    /// Parses the payload of a create-mode precondition.
    pub fn from_bytes(payload: &[u8]) -> (res: Result<Self, Error>)
        ensures
            res == Self::spec_from_bytes(payload@),
    {
        if payload.len() != 64 {
            return Err(Error::IllegalPayloadLength(payload.len()));
        }
        let stf_identifier: [u8; 32] = array_at(payload, 0);
        let root_hash: [u8; 32] = array_at(payload, 32);
        proof {
            lemma_array_of_view(stf_identifier);
            lemma_array_of_view(root_hash);
        }
        Ok(Precondition::new(stf_identifier, root_hash))
    }

    /// Parsing the payload of a precondition gives the precondition back.
    pub proof fn lemma_payload_roundtrip(self)
        ensures
            Self::spec_from_bytes(self.spec_payload()) == Ok::<Self, Error>(self),
    {
        let b = self.spec_payload();
        assert(b.subrange(0, 32) =~= self.stf_identifier@);
        assert(b.subrange(32, 64) =~= self.root_hash@);
        lemma_array_of_view(self.stf_identifier);
        lemma_array_of_view(self.root_hash);
    }

    /// A payload that parses is the payload of what it parses to.
    pub proof fn lemma_payload_canonical(payload: Seq<u8>)
        requires
            Self::spec_from_bytes(payload) is Ok,
        ensures
            Self::spec_from_bytes(payload)->Ok_0.spec_payload() == payload,
    {
        lemma_array_of::<32>(payload.subrange(0, 32));
        lemma_array_of::<32>(payload.subrange(32, 64));
        assert(Self::spec_from_bytes(payload)->Ok_0.spec_payload() =~= payload);
    }
}

/// The witness of a create-mode input: it carries nothing.
#[derive(Debug, PartialEq, Eq)]
pub struct Witness;

impl Witness {
    pub fn to_payload(&self) -> (payload: Vec<u8>)
        ensures
            payload@ == Seq::<u8>::empty(),
    {
        Vec::new()
    }

    /// The witness that `payload` encodes: only the empty payload is one.
    pub open spec fn spec_from_bytes(payload: Seq<u8>) -> Result<Self, Error> {
        if payload.len() != 0 {
            Err(Error::IllegalPayloadLength(payload.len() as usize))
        } else {
            Ok(Witness)
        }
    }

    /// Parses the payload of a create-mode witness.
    pub fn from_bytes(payload: &[u8]) -> (res: Result<Self, Error>)
        ensures
            res == Self::spec_from_bytes(payload@),
    {
        if payload.len() != 0 {
            return Err(Error::IllegalPayloadLength(payload.len()));
        }
        Ok(Witness)
    }
}

/// What verifying the consumption of a create-mode output gives: the transaction has at
/// most one TZE input and exactly one TZE output, and that output's precondition is an
/// STF-mode precondition (the chain moves into the STF state).
pub open spec fn spec_verify(context: Context) -> Result<(), ErrorModel> {
    let inputs = context.tze_inputs@;
    let outputs = context.tze_outputs@;
    if inputs.len() > 1 {
        Err(ErrorModel::IncorrectTzeInputsAmount { expected: 1, provided: inputs.len() as usize })
    } else if outputs.len() != 1 {
        Err(ErrorModel::IncorrectTzeOutputsAmount { expected: 1, provided: outputs.len() as usize })
    } else if !(PreconditionEnum::spec_from_payload(
        outputs[0].precondition_mode,
        outputs[0].precondition_payload@,
    ) matches Ok(PreconditionEnum::Stf(_))) {
        Err(ErrorModel::UnexpectedOutputPrecondition)
    } else {
        Ok(())
    }
}

/// Verifies the consumption of a create-mode output by the transaction of `context`.
pub fn verify(_precondition: &Precondition, _witness: &Witness, context: &Context) -> (res: Result<
    (),
    Error,
>)
    ensures
        outcome(res) == spec_verify(*context),
{
    let tze_inputs_count = context.tx_tze_inputs().len();
    if tze_inputs_count > 1 {
        return Err(Error::IncorrectTzeInputsAmount { expected: 1, provided: tze_inputs_count });
    }
    let tze_outputs = context.tx_tze_outputs();
    if tze_outputs.len() != 1 {
        return Err(Error::IncorrectTzeOutputsAmount { expected: 1, provided: tze_outputs.len() });
    }
    let output = &tze_outputs[0];
    match PreconditionEnum::from_payload(output.precondition_mode, &output.precondition_payload) {
        Ok(PreconditionEnum::Stf(_)) => Ok(()),
        _ => Err(Error::UnexpectedOutputPrecondition),
    }
}

/// Consuming a create-mode output moves the chain into the STF state: an accepted
/// transaction has at most one TZE input and exactly one TZE output, and that output
/// carries an STF-mode precondition.
pub proof fn lemma_create_accepted(context: Context)
    requires
        spec_verify(context) is Ok,
    ensures
        context.tze_inputs@.len() <= 1,
        context.tze_outputs@.len() == 1,
        PreconditionEnum::spec_from_payload(
            context.tze_outputs@[0].precondition_mode,
            context.tze_outputs@[0].precondition_payload@,
        ) matches Ok(PreconditionEnum::Stf(_)),
{
}

/// The converse of [`lemma_create_accepted`]: a transaction with at most one TZE input and
/// exactly one TZE output, whose precondition parses as an STF-mode precondition, is
/// accepted, whatever else it holds (other bundles, transparent outputs).
pub proof fn lemma_create_accepts(context: Context)
    requires
        context.tze_inputs@.len() <= 1,
        context.tze_outputs@.len() == 1,
        PreconditionEnum::spec_from_payload(
            context.tze_outputs@[0].precondition_mode,
            context.tze_outputs@[0].precondition_payload@,
        ) matches Ok(PreconditionEnum::Stf(_)),
    ensures
        spec_verify(context) == Ok::<(), ErrorModel>(()),
{
}

/// The create rules refuse, in this order: more than one TZE input, a number of TZE outputs
/// other than one, and an output whose precondition is not an STF-mode one.
pub proof fn lemma_create_rejects(context: Context)
    ensures
        context.tze_inputs@.len() > 1 ==> spec_verify(context) == Err::<(), ErrorModel>(
            ErrorModel::IncorrectTzeInputsAmount {
                expected: 1,
                provided: context.tze_inputs@.len() as usize,
            },
        ),
        context.tze_inputs@.len() <= 1 && context.tze_outputs@.len() != 1 ==> spec_verify(context)
            == Err::<(), ErrorModel>(
            ErrorModel::IncorrectTzeOutputsAmount {
                expected: 1,
                provided: context.tze_outputs@.len() as usize,
            },
        ),
        context.tze_inputs@.len() <= 1 && context.tze_outputs@.len() == 1
            && !(PreconditionEnum::spec_from_payload(
            context.tze_outputs@[0].precondition_mode,
            context.tze_outputs@[0].precondition_payload@,
        ) matches Ok(PreconditionEnum::Stf(_))) ==> spec_verify(context) == Err::<(), ErrorModel>(
            ErrorModel::UnexpectedOutputPrecondition,
        ),
{
}

} // verus!
