//! Deposit mode is meant to lock funds into the STF.
//! The expectation is that only the STF with a matching identifier
//! can consume the UTXO created in this mode.
use vstd::prelude::*;

use crate::transparent::eth_bridge::context::{Context, TzeInput};
use crate::transparent::eth_bridge::encoding::{
    array_at, array_of, arrays_equal, lemma_array_of, lemma_array_of_view, push_all,
};
use crate::transparent::eth_bridge::error::{outcome, stf_update_error, Error, ErrorModel};
use crate::transparent::eth_bridge::witness::{Witness as WitnessEnum, WitnessView};

verus! {

/// The mode number of the deposit mode.
pub const MODE: u32 = 2;

/// The precondition of a deposit-mode output: the STF that may consume it and the
/// Ethereum address that the deposit is for.
#[derive(Debug, PartialEq, Eq)]
pub struct Precondition {
    pub stf_identifier: [u8; 32],
    pub to: [u8; 20],
}

impl Precondition {
    pub fn new(stf_identifier: [u8; 32], to: [u8; 20]) -> (p: Self)
        ensures
            p.stf_identifier == stf_identifier,
            p.to == to,
    {
        Self { stf_identifier, to }
    }

    /// The payload of `self`: the STF identifier, then the Ethereum address.
    pub open spec fn spec_payload(self) -> Seq<u8> {
        self.stf_identifier@ + self.to@
    }

    /// The precondition that `payload` encodes: exactly 52 bytes, read as the STF
    /// identifier and the Ethereum address.
    pub open spec fn spec_from_bytes(payload: Seq<u8>) -> Result<Self, Error> {
        if payload.len() != 52 {
            Err(Error::IllegalPayloadLength(payload.len() as usize))
        } else {
            Ok(
                Precondition {
                    stf_identifier: array_of::<32>(payload.subrange(0, 32)),
                    to: array_of::<20>(payload.subrange(32, 52)),
                },
            )
        }
    }

    pub fn to_payload(&self) -> (payload: Vec<u8>)
        ensures
            payload@ == self.spec_payload(),
    {
        let mut payload = Vec::with_capacity(52);
        push_all(&mut payload, &self.stf_identifier);
        push_all(&mut payload, &self.to);
        payload
    }

    /// Parses the payload of a deposit-mode precondition.
    pub fn from_bytes(payload: &[u8]) -> (res: Result<Self, Error>)
        ensures
            res == Self::spec_from_bytes(payload@),
    {
        if payload.len() != 52 {
            return Err(Error::IllegalPayloadLength(payload.len()));
        }
        let stf_identifier: [u8; 32] = array_at(payload, 0);
        let to: [u8; 20] = array_at(payload, 32);
        proof {
            lemma_array_of_view(stf_identifier);
            lemma_array_of_view(to);
        }
        Ok(Precondition::new(stf_identifier, to))
    }

    /// Parsing the payload of a precondition gives the precondition back.
    pub proof fn lemma_payload_roundtrip(self)
        ensures
            Self::spec_from_bytes(self.spec_payload()) == Ok::<Self, Error>(self),
    {
        let b = self.spec_payload();
        assert(b.subrange(0, 32) =~= self.stf_identifier@);
        assert(b.subrange(32, 52) =~= self.to@);
        lemma_array_of_view(self.stf_identifier);
        lemma_array_of_view(self.to);
    }

    /// A payload that parses is the payload of what it parses to.
    pub proof fn lemma_payload_canonical(payload: Seq<u8>)
        requires
            Self::spec_from_bytes(payload) is Ok,
        ensures
            Self::spec_from_bytes(payload)->Ok_0.spec_payload() == payload,
    {
        lemma_array_of::<32>(payload.subrange(0, 32));
        lemma_array_of::<20>(payload.subrange(32, 52));
        assert(Self::spec_from_bytes(payload)->Ok_0.spec_payload() =~= payload);
    }
}

/// The witness of a deposit-mode input: it carries nothing.
#[derive(Debug, PartialEq, Eq)]
pub struct Witness;

impl Witness {
    pub fn to_payload(&self) -> (payload: Vec<u8>)
        ensures
            payload@ == Seq::<u8>::empty(),
    {
        Vec::new()
    }

    /// The witness that `payload` encodes: only the empty payload is one.
    pub open spec fn spec_from_bytes(payload: Seq<u8>) -> Result<Self, Error> {
        if payload.len() != 0 {
            Err(Error::IllegalPayloadLength(payload.len() as usize))
        } else {
            Ok(Witness)
        }
    }

    /// Parses the payload of a deposit-mode witness.
    pub fn from_bytes(payload: &[u8]) -> (res: Result<Self, Error>)
        ensures
            res == Self::spec_from_bytes(payload@),
    {
        if payload.len() != 0 {
            return Err(Error::IllegalPayloadLength(payload.len()));
        }
        Ok(Witness)
    }
}

/// The TZE inputs among `inputs` that are not deposit-mode inputs, in order.
pub open spec fn other_inputs(inputs: Seq<TzeInput>) -> Seq<TzeInput>
    decreases inputs.len(),
{
    if inputs.len() == 0 {
        Seq::empty()
    } else if inputs.last().witness_mode != MODE {
        other_inputs(inputs.drop_last()).push(inputs.last())
    } else {
        other_inputs(inputs.drop_last())
    }
}

/// What verifying the consumption of a deposit-mode output gives: the transaction has at
/// least two TZE inputs, exactly one of them is not a deposit, that one carries an STF
/// witness, and the witness is for the STF that the deposit names.
pub open spec fn spec_verify(precondition: Precondition, context: Context) -> Result<
    (),
    ErrorModel,
> {
    let inputs = context.tze_inputs@;
    let stf_in = other_inputs(inputs);
    if inputs.len() < 2 {
        Err(ErrorModel::IncorrectTzeInputsAmount { expected: 2, provided: inputs.len() as usize })
    } else if stf_in.len() != 1 {
        Err(ErrorModel::InvalidStfUpdate("expected exactly one STF TZE input"@))
    } else {
        match WitnessEnum::spec_from_payload(stf_in[0].witness_mode, stf_in[0].witness_payload@) {
            Ok(WitnessView::Stf(w)) => {
                if w.stf_identifier != precondition.stf_identifier {
                    Err(ErrorModel::InvalidStfUpdate("STF identifier mismatch"@))
                } else {
                    Ok(())
                }
            },
            _ => Err(ErrorModel::UnexpectedInputWitness),
        }
    }
}

/// Verifies the consumption of a deposit-mode output by the transaction of `context`.
pub fn verify(precondition: &Precondition, _witness: &Witness, context: &Context) -> (res: Result<
    (),
    Error,
>)
    ensures
        outcome(res) == spec_verify(*precondition, *context),
{
    let tze_inputs = context.tx_tze_inputs();
    if tze_inputs.len() < 2 {
        return Err(Error::IncorrectTzeInputsAmount { expected: 2, provided: tze_inputs.len() });
    }
    let ghost inputs = tze_inputs@;
    let mut n_other: usize = 0;
    let mut first_other: usize = 0;
    let mut i: usize = 0;
    while i < tze_inputs.len()
        invariant
            i <= inputs.len(),
            inputs == tze_inputs@,
            n_other <= i,
            other_inputs(inputs.take(i as int)).len() == n_other,
            n_other > 0 ==> first_other < i && other_inputs(inputs.take(i as int))[0]
                == inputs[first_other as int],
        decreases inputs.len() - i,
    {
        assert(inputs.take(i + 1).drop_last() =~= inputs.take(i as int));
        if tze_inputs[i].witness_mode != MODE {
            if n_other == 0 {
                first_other = i;
            }
            n_other = n_other + 1;
        }
        i = i + 1;
    }
    assert(inputs.take(inputs.len() as int) =~= inputs);
    if n_other != 1 {
        return Err(stf_update_error("expected exactly one STF TZE input"));
    }
    let stf_in = &tze_inputs[first_other];
    let stf_witness = match WitnessEnum::from_payload(stf_in.witness_mode, &stf_in.witness_payload) {
        Ok(WitnessEnum::Stf(w)) => w,
        _ => {
            return Err(Error::UnexpectedInputWitness);
        },
    };
    if !arrays_equal(&stf_witness.stf_identifier, &precondition.stf_identifier) {
        return Err(stf_update_error("STF identifier mismatch"));
    }
    Ok(())
}

/// Only the STF that a deposit names can consume it: an accepted transaction has exactly
/// one TZE input that is not a deposit, and that input carries an STF witness whose STF
/// identifier is the deposit's.
pub proof fn lemma_deposit_accepted(precondition: Precondition, context: Context)
    requires
        spec_verify(precondition, context) is Ok,
    ensures
        context.tze_inputs@.len() >= 2,
        other_inputs(context.tze_inputs@).len() == 1,
        ({
            let stf_in = other_inputs(context.tze_inputs@)[0];
            WitnessEnum::spec_from_payload(stf_in.witness_mode, stf_in.witness_payload@) matches Ok(
                WitnessView::Stf(w),
            ) && w.stf_identifier == precondition.stf_identifier
        }),
        exists|k: int|
            0 <= k < context.tze_inputs@.len() && context.tze_inputs@[k].witness_mode != MODE
                && (forall|j: int|
                0 <= j < context.tze_inputs@.len() && j != k ==> (
                #[trigger] context.tze_inputs@[j]).witness_mode == MODE)
                && (WitnessEnum::spec_from_payload(
                (#[trigger] context.tze_inputs@[k]).witness_mode,
                context.tze_inputs@[k].witness_payload@,
            ) matches Ok(WitnessView::Stf(w)) && w.stf_identifier == precondition.stf_identifier),
{
    lemma_other_inputs_single(context.tze_inputs@);
}

/// Inputs among which none is not a deposit are all deposits.
proof fn lemma_other_inputs_none(inputs: Seq<TzeInput>)
    requires
        other_inputs(inputs).len() == 0,
    ensures
        forall|j: int| 0 <= j < inputs.len() ==> (#[trigger] inputs[j]).witness_mode == MODE,
    decreases inputs.len(),
{
    if inputs.len() > 0 {
        let init = inputs.drop_last();
        lemma_other_inputs_none(init);
        assert forall|j: int| 0 <= j < inputs.len() implies (#[trigger] inputs[j]).witness_mode
            == MODE by {
            if j < inputs.len() - 1 {
                assert(inputs[j] == init[j]);
            }
        }
    }
}

/// Inputs among which exactly one is not a deposit: that one, and only it.
proof fn lemma_other_inputs_single(inputs: Seq<TzeInput>)
    requires
        other_inputs(inputs).len() == 1,
    ensures
        exists|k: int|
            0 <= k < inputs.len() && inputs[k].witness_mode != MODE && other_inputs(inputs)[0]
                == #[trigger] inputs[k] && forall|j: int|
                0 <= j < inputs.len() && j != k ==> (#[trigger] inputs[j]).witness_mode == MODE,
    decreases inputs.len(),
{
    let init = inputs.drop_last();
    let n = inputs.len() as int;
    if inputs.last().witness_mode != MODE {
        lemma_other_inputs_none(init);
        assert forall|j: int| 0 <= j < n && j != n - 1 implies (#[trigger] inputs[j]).witness_mode
            == MODE by {
            assert(inputs[j] == init[j]);
        }
        assert(inputs[n - 1] == inputs.last());
    } else {
        lemma_other_inputs_single(init);
        let k = choose|k: int|
            0 <= k < init.len() && init[k].witness_mode != MODE && other_inputs(init)[0]
                == #[trigger] init[k] && forall|j: int|
                0 <= j < init.len() && j != k ==> (#[trigger] init[j]).witness_mode == MODE;
        assert(inputs[k] == init[k]);
        assert forall|j: int| 0 <= j < n && j != k implies (#[trigger] inputs[j]).witness_mode
            == MODE by {
            if j < n - 1 {
                assert(inputs[j] == init[j]);
            }
        }
    }
}

/// The deposit rules refuse, each with its own error: fewer than two TZE inputs; a number
/// of non-deposit inputs other than one; a single non-deposit input that carries no STF
/// witness; and an STF witness for another STF than the deposit's.
pub proof fn lemma_deposit_rejects(precondition: Precondition, context: Context)
    ensures
        context.tze_inputs@.len() < 2 ==> spec_verify(precondition, context) == Err::<
            (),
            ErrorModel,
        >(
            ErrorModel::IncorrectTzeInputsAmount {
                expected: 2,
                provided: context.tze_inputs@.len() as usize,
            },
        ),
        context.tze_inputs@.len() >= 2 && (forall|j: int|
            0 <= j < context.tze_inputs@.len() ==> (#[trigger] context.tze_inputs@[j]).witness_mode
                == MODE) ==> spec_verify(precondition, context) == Err::<(), ErrorModel>(
            ErrorModel::InvalidStfUpdate("expected exactly one STF TZE input"@),
        ),
        forall|k1: int, k2: int|
            0 <= k1 < k2 < context.tze_inputs@.len() && (#[trigger] context.tze_inputs@[k1]).witness_mode
                != MODE && (#[trigger] context.tze_inputs@[k2]).witness_mode != MODE
                ==> spec_verify(precondition, context) == Err::<(), ErrorModel>(
                ErrorModel::InvalidStfUpdate("expected exactly one STF TZE input"@),
            ),
        forall|k: int|
            0 <= k < context.tze_inputs@.len() && context.tze_inputs@.len() >= 2 && (forall|j: int|
                0 <= j < context.tze_inputs@.len() && j != k ==> (
                #[trigger] context.tze_inputs@[j]).witness_mode == MODE) && (
            #[trigger] context.tze_inputs@[k]).witness_mode != MODE ==> match WitnessEnum::spec_from_payload(
                context.tze_inputs@[k].witness_mode,
                context.tze_inputs@[k].witness_payload@,
            ) {
                Ok(WitnessView::Stf(w)) => w.stf_identifier != precondition.stf_identifier
                    ==> spec_verify(precondition, context) == Err::<(), ErrorModel>(
                    ErrorModel::InvalidStfUpdate("STF identifier mismatch"@),
                ),
                _ => spec_verify(precondition, context) == Err::<(), ErrorModel>(
                    ErrorModel::UnexpectedInputWitness,
                ),
            },
{
    let inputs = context.tze_inputs@;
    if inputs.len() >= 2 {
        if forall|j: int| 0 <= j < inputs.len() ==> (#[trigger] inputs[j]).witness_mode == MODE {
            lemma_no_other_inputs(inputs);
        }
        assert forall|k1: int, k2: int|
            0 <= k1 < k2 < inputs.len() && (#[trigger] inputs[k1]).witness_mode != MODE && (
            #[trigger] inputs[k2]).witness_mode != MODE implies spec_verify(precondition, context)
            == Err::<(), ErrorModel>(
            ErrorModel::InvalidStfUpdate("expected exactly one STF TZE input"@),
        ) by {
            if other_inputs(inputs).len() == 1 {
                lemma_other_inputs_single(inputs);
            }
        }
        assert forall|k: int|
            0 <= k < inputs.len() && (forall|j: int|
                0 <= j < inputs.len() && j != k ==> (#[trigger] inputs[j]).witness_mode == MODE)
                && (#[trigger] inputs[k]).witness_mode != MODE implies other_inputs(inputs)
            == seq![inputs[k]] by {
            lemma_single_other_input(inputs, k);
        }
    }
}

/// Inputs that are all deposits leave no other input.
proof fn lemma_no_other_inputs(inputs: Seq<TzeInput>)
    requires
        forall|j: int| 0 <= j < inputs.len() ==> (#[trigger] inputs[j]).witness_mode == MODE,
    ensures
        other_inputs(inputs) == Seq::<TzeInput>::empty(),
    decreases inputs.len(),
{
    if inputs.len() > 0 {
        lemma_no_other_inputs(inputs.drop_last());
    }
}

/// Inputs that are all deposits but the one at `k` leave that one alone.
proof fn lemma_single_other_input(inputs: Seq<TzeInput>, k: int)
    requires
        0 <= k < inputs.len(),
        inputs[k].witness_mode != MODE,
        forall|j: int|
            0 <= j < inputs.len() && j != k ==> (#[trigger] inputs[j]).witness_mode == MODE,
    ensures
        other_inputs(inputs) == seq![inputs[k]],
    decreases inputs.len(),
{
    if k == inputs.len() - 1 {
        let init = inputs.drop_last();
        assert forall|j: int| 0 <= j < init.len() implies (#[trigger] init[j]).witness_mode
            == MODE by {
            assert(init[j] == inputs[j]);
        }
        lemma_no_other_inputs(init);
        assert(other_inputs(inputs) =~= seq![inputs[k]]);
    } else {
        let init = inputs.drop_last();
        assert forall|j: int| 0 <= j < init.len() && j != k implies (
        #[trigger] init[j]).witness_mode == MODE by {
            assert(init[j] == inputs[j]);
        }
        lemma_single_other_input(init, k);
    }
}

/// A deposit is spent whenever the transaction has at least two TZE inputs, all of them
/// deposit-mode inputs but one (at index `k`), and that one carries an STF witness for the
/// STF that the deposit names — however many deposits are spent along with it.
pub proof fn lemma_deposit_accepts(precondition: Precondition, context: Context, k: int)
    requires
        context.tze_inputs@.len() >= 2,
        0 <= k < context.tze_inputs@.len(),
        context.tze_inputs@[k].witness_mode != MODE,
        forall|j: int|
            0 <= j < context.tze_inputs@.len() && j != k ==> (
            #[trigger] context.tze_inputs@[j]).witness_mode == MODE,
        WitnessEnum::spec_from_payload(
            context.tze_inputs@[k].witness_mode,
            context.tze_inputs@[k].witness_payload@,
        ) matches Ok(WitnessView::Stf(w)) && w.stf_identifier == precondition.stf_identifier,
    ensures
        spec_verify(precondition, context) == Ok::<(), ErrorModel>(()),
{
    lemma_single_other_input(context.tze_inputs@, k);
}

} // verus!
