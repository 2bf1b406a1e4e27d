//! The `eth_bridge` program: dispatches a precondition and witness to their mode's rules.
use vstd::prelude::*;

use crate::transparent::eth_bridge::context::Context;
use crate::transparent::eth_bridge::error::{outcome, Error, ErrorModel};
use crate::transparent::eth_bridge::modes::{create, deposit, stf};
use crate::transparent::eth_bridge::precondition::Precondition;
use crate::transparent::eth_bridge::witness::{Witness, WitnessView};

verus! {

/// The `eth_bridge` extension program.
pub struct Program;

impl Program {
    /// What running the program gives: the rules of the mode that the precondition and
    /// the witness share, or `ModeMismatch` where their modes differ.
    pub open spec fn spec_verify_inner(
        precondition: Precondition,
        witness: WitnessView,
        context: Context,
    ) -> Result<(), ErrorModel> {
        match (precondition, witness) {
            (Precondition::Create(_), WitnessView::Create) => create::spec_verify(context),
            (Precondition::Deposit(p), WitnessView::Deposit) => deposit::spec_verify(p, context),
            (Precondition::Stf(p), WitnessView::Stf(w)) => stf::spec_verify(p, w, context),
            _ => Err(ErrorModel::ModeMismatch),
        }
    }

    /// Runs the program against the given precondition, witness, and context.
    ///
    /// At this point the precondition and witness have been parsed and validated
    /// non-contextually, and are guaranteed to both be for this program. All subsequent
    /// validation is this function's responsibility.
    pub fn verify_inner(
        &self,
        precondition: &Precondition,
        witness: &Witness,
        context: &Context,
    ) -> (res: Result<(), Error>)
        requires
            witness matches Witness::Stf(w) ==> w.processed_deposits@.len() < usize::MAX,
        ensures
            outcome(res) == Self::spec_verify_inner(*precondition, witness@, *context),
    {
        // This match statement is selecting the mode that the program is operating in,
        // based on the enums defined in the parser.
        match (precondition, witness) {
            (Precondition::Create(p), Witness::Create(w)) => create::verify(p, w, context),
            (Precondition::Deposit(p), Witness::Deposit(w)) => deposit::verify(p, w, context),
            (Precondition::Stf(p), Witness::Stf(w)) => stf::verify(p, w, context),
            _ => Err(Error::ModeMismatch),
        }
    }
}

/// A precondition and a witness of different modes are refused with `ModeMismatch`,
/// whatever the transaction.
pub proof fn lemma_mode_mismatch(precondition: Precondition, witness: WitnessView, context: Context)
    requires
        precondition.spec_mode() != witness.spec_mode(),
    ensures
        Program::spec_verify_inner(precondition, witness, context) == Err::<(), ErrorModel>(
            ErrorModel::ModeMismatch,
        ),
{
}

/// A precondition and a witness of the same mode are run through that mode's rules, and
/// give exactly what those rules give (never `ModeMismatch`).
pub proof fn lemma_same_mode_runs_mode_rules(
    precondition: Precondition,
    witness: WitnessView,
    context: Context,
)
    requires
        precondition.spec_mode() == witness.spec_mode(),
    ensures
        Program::spec_verify_inner(precondition, witness, context) != Err::<(), ErrorModel>(
            ErrorModel::ModeMismatch,
        ),
        precondition is Create ==> Program::spec_verify_inner(precondition, witness, context)
            == create::spec_verify(context),
        precondition matches Precondition::Deposit(p) ==> Program::spec_verify_inner(
            precondition,
            witness,
            context,
        ) == deposit::spec_verify(p, context),
        precondition matches Precondition::Stf(p) ==> witness matches WitnessView::Stf(w)
            && Program::spec_verify_inner(precondition, witness, context) == stf::spec_verify(
            p,
            w,
            context,
        ),
{
    match (precondition, witness) {
        (Precondition::Stf(p), WitnessView::Stf(w)) => {
            let ws = w.processed_withdrawals;
            let rs = context.transparent_outputs@.map_values(
                |o: crate::transparent::eth_bridge::context::TransparentOutput| stf::resolve(o),
            );
            assert(stf::spec_check_withdrawals(ws, rs) != Err::<(), ErrorModel>(
                ErrorModel::ModeMismatch,
            ));
        },
        _ => {},
    }
}

} // verus!
