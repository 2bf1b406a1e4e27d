use zcash_extensions::transparent::eth_bridge::builder::{
    create_input_witness, deposit_input_witness, stf_input_witness, EthBridgeTzeBuilder,
};
use zcash_extensions::transparent::eth_bridge::context::{TransparentOutput, TzeInput, TzeOutput};
use zcash_extensions::transparent::eth_bridge::modes::{create, deposit, stf};
use zcash_extensions::transparent::eth_bridge::script::TransparentRecipient;
use zcash_extensions::transparent::eth_bridge::witness::Witness;
use zcash_extensions::transparent::eth_bridge::{Context, Error, Precondition, Program};

fn arr32(b: u8) -> [u8; 32] {
    [b; 32]
}

fn arr20(b: u8) -> [u8; 20] {
    [b; 20]
}

fn p2pkh(hash: [u8; 20]) -> Vec<u8> {
    let mut s = vec![0x76, 0xa9, 0x14];
    s.extend_from_slice(&hash);
    s.extend_from_slice(&[0x88, 0xac]);
    s
}

fn p2sh(hash: [u8; 20]) -> Vec<u8> {
    let mut s = vec![0xa9, 0x14];
    s.extend_from_slice(&hash);
    s.push(0x87);
    s
}

fn stf_input(w: &stf::Witness) -> TzeInput {
    TzeInput { witness_mode: stf::MODE, witness_payload: w.to_payload() }
}

fn deposit_input() -> TzeInput {
    TzeInput { witness_mode: deposit::MODE, witness_payload: vec![] }
}

fn stf_output(id: u8, root: u8) -> TzeOutput {
    TzeOutput {
        precondition_mode: stf::MODE,
        precondition_payload: stf::Precondition::new(arr32(id), arr32(root)).to_payload(),
    }
}

fn stf_update(id: u8, root: u8, deposits: usize, withdrawals: Vec<([u8; 20], u64)>) -> stf::Witness {
    stf::Witness {
        new_root_hash: arr32(root),
        stf_identifier: arr32(id),
        processed_deposits: (0..deposits)
            .map(|i| stf::ProcessedDeposit { to: arr20(i as u8), amount: 10 })
            .collect(),
        processed_withdrawals: withdrawals
            .into_iter()
            .map(|(pubkey_hash, amount)| stf::ProcessedWithdrawal { pubkey_hash, amount })
            .collect(),
    }
}

fn invalid_update(msg: &str) -> Result<(), Error> {
    Err(Error::InvalidStfUpdate(msg.to_string()))
}

#[test]
fn create_verify_accepts_move_to_stf() {
    let ctx = Context {
        is_tze_only: true,
        tze_inputs: vec![TzeInput { witness_mode: create::MODE, witness_payload: vec![] }],
        tze_outputs: vec![stf_output(1, 2)],
        transparent_outputs: vec![],
    };
    let p = create::Precondition::new(arr32(1), arr32(2));
    assert_eq!(create::verify(&p, &create::Witness, &ctx), Ok(()));
}

#[test]
fn create_verify_errors() {
    let p = create::Precondition::new(arr32(1), arr32(2));
    let two_inputs = Context {
        is_tze_only: true,
        tze_inputs: vec![deposit_input(), deposit_input()],
        tze_outputs: vec![stf_output(1, 2)],
        transparent_outputs: vec![],
    };
    assert_eq!(
        create::verify(&p, &create::Witness, &two_inputs),
        Err(Error::IncorrectTzeInputsAmount { expected: 1, provided: 2 })
    );
    let no_output = Context {
        is_tze_only: true,
        tze_inputs: vec![],
        tze_outputs: vec![],
        transparent_outputs: vec![],
    };
    assert_eq!(
        create::verify(&p, &create::Witness, &no_output),
        Err(Error::IncorrectTzeOutputsAmount { expected: 1, provided: 0 })
    );
    let create_output = Context {
        is_tze_only: true,
        tze_inputs: vec![],
        tze_outputs: vec![TzeOutput {
            precondition_mode: create::MODE,
            precondition_payload: p.to_payload(),
        }],
        transparent_outputs: vec![],
    };
    assert_eq!(
        create::verify(&p, &create::Witness, &create_output),
        Err(Error::UnexpectedOutputPrecondition)
    );
}

#[test]
fn deposit_verify_accepts_matching_stf() {
    let w = stf_update(7, 3, 1, vec![]);
    let ctx = Context {
        is_tze_only: true,
        tze_inputs: vec![deposit_input(), stf_input(&w)],
        tze_outputs: vec![],
        transparent_outputs: vec![],
    };
    let p = deposit::Precondition::new(arr32(7), arr20(4));
    assert_eq!(deposit::verify(&p, &deposit::Witness, &ctx), Ok(()));
}

#[test]
fn deposit_verify_errors() {
    let p = deposit::Precondition::new(arr32(7), arr20(4));
    let w = stf_update(7, 3, 1, vec![]);
    let one_input = Context {
        is_tze_only: true,
        tze_inputs: vec![deposit_input()],
        tze_outputs: vec![],
        transparent_outputs: vec![],
    };
    assert_eq!(
        deposit::verify(&p, &deposit::Witness, &one_input),
        Err(Error::IncorrectTzeInputsAmount { expected: 2, provided: 1 })
    );
    let two_stf = Context {
        is_tze_only: true,
        tze_inputs: vec![stf_input(&w), stf_input(&w), deposit_input()],
        tze_outputs: vec![],
        transparent_outputs: vec![],
    };
    assert_eq!(
        deposit::verify(&p, &deposit::Witness, &two_stf),
        invalid_update("expected exactly one STF TZE input")
    );
    let bad_witness = Context {
        is_tze_only: true,
        tze_inputs: vec![deposit_input(), TzeInput { witness_mode: create::MODE, witness_payload: vec![] }],
        tze_outputs: vec![],
        transparent_outputs: vec![],
    };
    assert_eq!(
        deposit::verify(&p, &deposit::Witness, &bad_witness),
        Err(Error::UnexpectedInputWitness)
    );
    let other_stf = stf_update(8, 3, 1, vec![]);
    let mismatch = Context {
        is_tze_only: true,
        tze_inputs: vec![stf_input(&other_stf), deposit_input()],
        tze_outputs: vec![],
        transparent_outputs: vec![],
    };
    assert_eq!(
        deposit::verify(&p, &deposit::Witness, &mismatch),
        invalid_update("STF identifier mismatch")
    );
}

fn stf_ctx(w: &stf::Witness, outputs: Vec<TransparentOutput>) -> Context {
    let mut tze_inputs = vec![stf_input(w)];
    for _ in 0..w.processed_deposits.len() {
        tze_inputs.push(deposit_input());
    }
    Context {
        is_tze_only: false,
        tze_inputs,
        tze_outputs: vec![stf_output(w.stf_identifier[0], w.new_root_hash[0])],
        transparent_outputs: outputs,
    }
}

#[test]
fn stf_verify_accepts_paid_withdrawals() {
    let w = stf_update(1, 2, 2, vec![(arr20(9), 500), (arr20(8), 600)]);
    let p = stf::Precondition::new(arr32(1), arr32(2));
    let outputs = vec![
        TransparentOutput { value: 600, script_pubkey: p2pkh(arr20(8)) },
        TransparentOutput { value: 1, script_pubkey: p2sh(arr20(9)) },
        TransparentOutput { value: 500, script_pubkey: p2pkh(arr20(9)) },
    ];
    assert_eq!(stf::verify(&p, &w, &stf_ctx(&w, outputs)), Ok(()));
}

#[test]
fn stf_verify_counts() {
    let w = stf_update(1, 2, 1, vec![(arr20(9), 500)]);
    let p = stf::Precondition::new(arr32(1), arr32(2));
    let mut ctx = stf_ctx(&w, vec![TransparentOutput { value: 500, script_pubkey: p2pkh(arr20(9)) }]);
    ctx.tze_inputs.pop();
    assert_eq!(
        stf::verify(&p, &w, &ctx),
        Err(Error::IncorrectTzeInputsAmount { expected: 2, provided: 1 })
    );
    let mut ctx = stf_ctx(&w, vec![TransparentOutput { value: 500, script_pubkey: p2pkh(arr20(9)) }]);
    ctx.tze_outputs.push(stf_output(1, 2));
    assert_eq!(
        stf::verify(&p, &w, &ctx),
        Err(Error::IncorrectTzeOutputsAmount { expected: 1, provided: 2 })
    );
    let ctx = stf_ctx(&w, vec![]);
    assert_eq!(
        stf::verify(&p, &w, &ctx),
        Err(Error::IncorrectTransparentOutputsAmount { expected: 1, provided: 0 })
    );
    let mut ctx = stf_ctx(&w, vec![TransparentOutput { value: 500, script_pubkey: p2pkh(arr20(9)) }]);
    ctx.tze_inputs[1] = stf_input(&w);
    assert_eq!(stf::verify(&p, &w, &ctx), invalid_update("Incorrect number of STF or deposit inputs"));
}

#[test]
fn stf_verify_hash_checks() {
    let w = stf_update(1, 2, 0, vec![]);
    let ctx = stf_ctx(&w, vec![]);
    assert_eq!(
        stf::verify(&stf::Precondition::new(arr32(1), arr32(3)), &w, &ctx),
        invalid_update("Root hash mismatch")
    );
    assert_eq!(
        stf::verify(&stf::Precondition::new(arr32(4), arr32(2)), &w, &ctx),
        invalid_update("STF identifier mismatch")
    );
    let p = stf::Precondition::new(arr32(1), arr32(2));
    let mut ctx = stf_ctx(&w, vec![]);
    ctx.tze_outputs[0] = stf_output(1, 5);
    assert_eq!(stf::verify(&p, &w, &ctx), invalid_update("Root hash mismatch"));
    ctx.tze_outputs[0] = TzeOutput { precondition_mode: stf::MODE, precondition_payload: vec![0; 10] };
    assert_eq!(stf::verify(&p, &w, &ctx), Err(Error::UnexpectedOutputPrecondition));
}

#[test]
fn stf_verify_withdrawal_checks() {
    let w = stf_update(1, 2, 0, vec![(arr20(9), 500)]);
    let p = stf::Precondition::new(arr32(1), arr32(2));
    let wrong_amount = stf_ctx(&w, vec![TransparentOutput { value: 499, script_pubkey: p2pkh(arr20(9)) }]);
    assert_eq!(
        stf::verify(&p, &w, &wrong_amount),
        invalid_update("Transparent output value does not match withdrawal amount")
    );
    let to_script_hash = stf_ctx(&w, vec![TransparentOutput { value: 500, script_pubkey: p2sh(arr20(9)) }]);
    assert_eq!(
        stf::verify(&p, &w, &to_script_hash),
        invalid_update("Some withdrawals were not covered by transparent outputs")
    );
    let unparsable = stf_ctx(&w, vec![TransparentOutput { value: 500, script_pubkey: vec![0x51] }]);
    assert_eq!(
        stf::verify(&p, &w, &unparsable),
        invalid_update("Some withdrawals were not covered by transparent outputs")
    );
}

#[test]
fn check_withdrawals_uses_last_withdrawal_per_hash() {
    let ws = vec![
        stf::ProcessedWithdrawal { pubkey_hash: arr20(1), amount: 1 },
        stf::ProcessedWithdrawal { pubkey_hash: arr20(1), amount: 2 },
    ];
    let paid_last = [stf::ResolvedOutput {
        recipient: Some(TransparentRecipient::PublicKeyHash(arr20(1))),
        value: 2,
    }];
    assert_eq!(stf::check_withdrawals(&ws, &paid_last), Ok(()));
    let paid_first = [stf::ResolvedOutput {
        recipient: Some(TransparentRecipient::PublicKeyHash(arr20(1))),
        value: 1,
    }];
    assert_eq!(
        stf::check_withdrawals(&ws, &paid_first),
        invalid_update("Transparent output value does not match withdrawal amount")
    );
    let unrelated = [stf::ResolvedOutput {
        recipient: Some(TransparentRecipient::PublicKeyHash(arr20(3))),
        value: 1,
    }];
    assert_eq!(stf::check_withdrawals(&[], &unrelated), Ok(()));
    assert_eq!(
        stf::check_withdrawals(&ws, &unrelated),
        invalid_update("Some withdrawals were not covered by transparent outputs")
    );
}

#[test]
fn program_dispatch() {
    let w = stf_update(1, 2, 0, vec![]);
    let ctx = stf_ctx(&w, vec![]);
    let program = Program;
    assert_eq!(
        program.verify_inner(&Precondition::stf(arr32(1), arr32(2)), &Witness::Stf(w), &ctx),
        Ok(())
    );
    assert_eq!(
        program.verify_inner(&Precondition::create(arr32(1), arr32(2)), &Witness::deposit(), &ctx),
        Err(Error::ModeMismatch)
    );
    assert_eq!(
        program.verify_inner(&Precondition::deposit(arr32(1), arr20(2)), &Witness::create(), &ctx),
        Err(Error::ModeMismatch)
    );
    let create_ctx = Context {
        is_tze_only: true,
        tze_inputs: vec![],
        tze_outputs: vec![stf_output(1, 2)],
        transparent_outputs: vec![],
    };
    assert_eq!(create_ctx.is_tze_only(), true);
    assert_eq!(create_ctx.tx_tze_outputs().len(), 1);
    assert_eq!(
        program.verify_inner(&Precondition::create(arr32(1), arr32(2)), &Witness::create(), &create_ctx),
        Ok(())
    );
}

#[test]
fn builder_input_decisions() {
    let (mode, payload) = Precondition::create(arr32(1), arr32(2)).to_payload();
    assert_eq!(create_input_witness(mode, &payload), Ok(Witness::create()));
    assert_eq!(deposit_input_witness(mode, &payload), Err(Error::ModeInvalid(0)));
    assert_eq!(create_input_witness(0, &payload[..10]), Err(Error::IllegalPayloadLength(10)));
    assert_eq!(create_input_witness(5, &payload), Err(Error::ModeInvalid(5)));
    let (mode, payload) = Precondition::deposit(arr32(1), arr20(2)).to_payload();
    assert_eq!(deposit_input_witness(mode, &payload), Ok(Witness::deposit()));
    let (mode, payload) = Precondition::stf(arr32(1), arr32(2)).to_payload();
    assert_eq!(
        stf_input_witness(mode, &payload, arr32(1), arr32(3), vec![], vec![]),
        Ok(Witness::Stf(stf::Witness {
            new_root_hash: arr32(3),
            stf_identifier: arr32(1),
            processed_deposits: vec![],
            processed_withdrawals: vec![],
        }))
    );
    assert_eq!(
        stf_input_witness(0, &payload, arr32(1), arr32(3), vec![], vec![]),
        Err(Error::ModeInvalid(0))
    );
}

#[test]
fn builder_derefs_to_wrapped_builder() {
    let mut b = EthBridgeTzeBuilder { txn_builder: vec![1u8], extension_id: 4 };
    assert_eq!(b.len(), 1);
    b.push(2);
    assert_eq!(b.txn_builder, vec![1, 2]);
    assert_eq!(b.extension_id, 4);
}

#[test]
fn error_messages() {
    assert_eq!(Error::IllegalPayloadLength(52).message(), "Illegal payload length for demo: 52");
    assert_eq!(Error::ModeInvalid(0).message(), "Invalid TZE mode for demo program: 0");
    assert_eq!(Error::NonTzeTxn.message(), "Transaction has non-TZE inputs.");
    assert_eq!(Error::ModeMismatch.message(), "Extension operation mode mismatch.");
    assert_eq!(Error::NonTzeBundle.message(), "Non-TZE bundles detected in transaction");
    assert_eq!(
        Error::IncorrectTzeInputsAmount { expected: 10, provided: 3 }.message(),
        "Incorrect TZE inputs amount, expected 10, provided 3"
    );
    assert_eq!(
        Error::IncorrectTzeOutputsAmount { expected: 1, provided: 0 }.message(),
        "Incorrect TZE outputs amount, expected 1, provided 0"
    );
    assert_eq!(
        Error::IncorrectTransparentOutputsAmount { expected: 2, provided: 1 }.message(),
        "Incorrect transparent outputs amount, expected 2, provided 1"
    );
    assert_eq!(Error::UnexpectedOutputPrecondition.message(), "Unexpected encoding for output precondition");
    assert_eq!(Error::UnexpectedInputWitness.message(), "Unexpected encoding for input witness");
    assert_eq!(
        Error::InvalidStfUpdate("Root hash mismatch".to_string()).message(),
        "Invalid STF update: Root hash mismatch"
    );
}
