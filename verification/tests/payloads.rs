use zcash_extensions::transparent::eth_bridge::modes::{create, deposit, stf};
use zcash_extensions::transparent::eth_bridge::witness::Witness;
use zcash_extensions::transparent::eth_bridge::{Error, Precondition};

fn bytes(start: u8, n: usize) -> Vec<u8> {
    (0..n).map(|i| start.wrapping_add(i as u8)).collect()
}

fn arr32(start: u8) -> [u8; 32] {
    bytes(start, 32).try_into().unwrap()
}

fn arr20(start: u8) -> [u8; 20] {
    bytes(start, 20).try_into().unwrap()
}

const MAX_MONEY: u64 = 2_100_000_000_000_000;

fn sample_stf_witness() -> stf::Witness {
    stf::Witness {
        new_root_hash: arr32(100),
        stf_identifier: arr32(1),
        processed_deposits: vec![
            stf::ProcessedDeposit { to: arr20(50), amount: 5 },
            stf::ProcessedDeposit { to: arr20(70), amount: MAX_MONEY },
        ],
        processed_withdrawals: vec![stf::ProcessedWithdrawal {
            pubkey_hash: arr20(200),
            amount: 0x0001_0203_0405_0607,
        }],
    }
}

#[test]
fn create_precondition_payload_roundtrip() {
    let p = create::Precondition::new(arr32(1), arr32(33));
    let payload = p.to_payload();
    assert_eq!(payload, bytes(1, 64));
    assert_eq!(create::Precondition::from_bytes(&payload), Ok(p));
}

#[test]
fn create_precondition_rejects_wrong_length() {
    assert_eq!(create::Precondition::from_bytes(&bytes(0, 63)), Err(Error::IllegalPayloadLength(63)));
    assert_eq!(create::Precondition::from_bytes(&bytes(0, 65)), Err(Error::IllegalPayloadLength(65)));
}

#[test]
fn deposit_precondition_payload_roundtrip() {
    let p = deposit::Precondition::new(arr32(1), arr20(33));
    let payload = p.to_payload();
    assert_eq!(payload, bytes(1, 52));
    assert_eq!(deposit::Precondition::from_bytes(&payload), Ok(p));
    assert_eq!(deposit::Precondition::from_bytes(&bytes(0, 64)), Err(Error::IllegalPayloadLength(64)));
}

#[test]
fn stf_precondition_puts_identifier_first() {
    let p = stf::Precondition::new(arr32(1), arr32(33));
    assert_eq!(p.stf_identifier, arr32(1));
    assert_eq!(p.root_hash, arr32(33));
    assert_eq!(p.to_payload(), bytes(1, 64));
    assert_eq!(stf::Precondition::from_bytes(&bytes(1, 64)), Ok(p));
}

#[test]
fn precondition_enum_payload_roundtrip() {
    for p in [
        Precondition::create(arr32(1), arr32(2)),
        Precondition::stf(arr32(3), arr32(4)),
        Precondition::deposit(arr32(5), arr20(6)),
    ] {
        let (mode, payload) = p.to_payload();
        assert_eq!(Precondition::from_payload(mode, &payload), Ok(p));
    }
    assert_eq!(Precondition::create(arr32(1), arr32(2)).to_payload().0, 0);
    assert_eq!(Precondition::stf(arr32(1), arr32(2)).to_payload().0, 1);
    assert_eq!(Precondition::deposit(arr32(1), arr20(2)).to_payload().0, 2);
}

#[test]
fn precondition_from_payload_errors() {
    assert_eq!(Precondition::from_payload(3, &bytes(0, 64)), Err(Error::ModeInvalid(3)));
    assert_eq!(Precondition::from_payload(0, &bytes(0, 52)), Err(Error::IllegalPayloadLength(52)));
    assert_eq!(Precondition::from_payload(2, &bytes(0, 64)), Err(Error::IllegalPayloadLength(64)));
    assert_eq!(
        Precondition::from_payload(2, &bytes(0, 52)),
        Ok(Precondition::deposit(arr32(0), arr20(32)))
    );
}

#[test]
fn precondition_try_from_mode() {
    let p = Precondition::stf(arr32(1), arr32(2));
    assert_eq!(Precondition::try_from_mode((1, Precondition::stf(arr32(1), arr32(2)))), Ok(p));
    assert_eq!(
        Precondition::try_from_mode((0, Precondition::stf(arr32(1), arr32(2)))),
        Err(Error::ModeInvalid(0))
    );
    assert_eq!(
        Precondition::try_from_mode((7, Precondition::create(arr32(1), arr32(2)))),
        Err(Error::ModeInvalid(7))
    );
}

#[test]
fn empty_witnesses() {
    assert_eq!(Witness::create().to_payload(), (0, vec![]));
    assert_eq!(Witness::deposit().to_payload(), (2, vec![]));
    assert_eq!(Witness::from_payload(0, &[]), Ok(Witness::create()));
    assert_eq!(Witness::from_payload(2, &[]), Ok(Witness::deposit()));
    assert_eq!(Witness::from_payload(0, &[1]), Err(Error::IllegalPayloadLength(1)));
    assert_eq!(create::Witness::from_bytes(&[1, 2]), Err(Error::IllegalPayloadLength(2)));
    assert_eq!(deposit::Witness::from_bytes(&[]), Ok(deposit::Witness));
    assert_eq!(Witness::from_payload(9, &[]), Err(Error::ModeInvalid(9)));
}

#[test]
fn witness_try_from_mode() {
    assert_eq!(Witness::try_from_mode((0, Witness::create())), Ok(Witness::create()));
    assert_eq!(Witness::try_from_mode((1, Witness::create())), Err(Error::ModeInvalid(1)));
    assert_eq!(
        Witness::try_from_mode((1, Witness::Stf(sample_stf_witness()))),
        Ok(Witness::Stf(sample_stf_witness()))
    );
}

#[test]
fn stf_witness_layout() {
    let w = sample_stf_witness();
    let payload = w.to_payload();
    assert_eq!(payload.len(), 72 + 3 * 28);
    assert_eq!(&payload[0..32], &arr32(1));
    assert_eq!(&payload[32..64], &arr32(100));
    assert_eq!(&payload[64..68], &[2, 0, 0, 0]);
    assert_eq!(&payload[68..72], &[1, 0, 0, 0]);
    assert_eq!(&payload[72..92], &arr20(50));
    assert_eq!(&payload[92..100], &[5, 0, 0, 0, 0, 0, 0, 0]);
    assert_eq!(&payload[128..156], &{
        let mut r = arr20(200).to_vec();
        r.extend_from_slice(&[7, 6, 5, 4, 3, 2, 1, 0]);
        r
    }[..]);
}

#[test]
fn stf_witness_payload_roundtrip() {
    let w = sample_stf_witness();
    let payload = w.to_payload();
    assert_eq!(stf::Witness::from_bytes(&payload), Ok(sample_stf_witness()));
    let (mode, payload) = Witness::Stf(sample_stf_witness()).to_payload();
    assert_eq!(mode, 1);
    assert_eq!(Witness::from_payload(mode, &payload), Ok(Witness::Stf(sample_stf_witness())));
}

#[test]
fn stf_witness_empty_lists() {
    let w = stf::Witness {
        new_root_hash: arr32(9),
        stf_identifier: arr32(8),
        processed_deposits: vec![],
        processed_withdrawals: vec![],
    };
    let payload = w.to_payload();
    assert_eq!(payload.len(), 72);
    assert_eq!(stf::Witness::from_bytes(&payload), Ok(w));
}

#[test]
fn stf_witness_rejects_short_or_mismatched_payloads() {
    assert_eq!(stf::Witness::from_bytes(&bytes(0, 71)), Err(Error::IllegalPayloadLength(71)));
    let mut payload = sample_stf_witness().to_payload();
    payload.push(0);
    let len = payload.len();
    assert_eq!(stf::Witness::from_bytes(&payload), Err(Error::IllegalPayloadLength(len)));
    // a count that claims more records than there are
    let mut payload = sample_stf_witness().to_payload();
    payload[68] = 2;
    let len = payload.len();
    assert_eq!(stf::Witness::from_bytes(&payload), Err(Error::IllegalPayloadLength(len)));
}

#[test]
fn stf_witness_rejects_amount_above_max_money() {
    let mut w = sample_stf_witness();
    w.processed_withdrawals[0].amount = MAX_MONEY + 1;
    let payload = w.to_payload();
    assert_eq!(stf::Witness::from_bytes(&payload), Err(Error::UnexpectedInputWitness));
    // through the mode dispatch the error becomes a payload-length error
    assert_eq!(
        Witness::from_payload(1, &payload),
        Err(Error::IllegalPayloadLength(payload.len()))
    );
}

#[test]
fn processed_records() {
    let mut record = arr20(1).to_vec();
    record.extend_from_slice(&[0xff, 0, 0, 0, 0, 0, 0, 0]);
    assert_eq!(
        stf::ProcessedDeposit::from_bytes(&record),
        Ok(stf::ProcessedDeposit { to: arr20(1), amount: 255 })
    );
    assert_eq!(
        stf::ProcessedWithdrawal::from_bytes(&record),
        Ok(stf::ProcessedWithdrawal { pubkey_hash: arr20(1), amount: 255 })
    );
    assert_eq!(stf::ProcessedDeposit::from_bytes(&record[..27]), Err(Error::IllegalPayloadLength(27)));
    let mut big = arr20(1).to_vec();
    big.extend_from_slice(&(MAX_MONEY + 1).to_le_bytes());
    assert_eq!(stf::ProcessedDeposit::from_bytes(&big), Err(Error::UnexpectedInputWitness));
    assert_eq!(stf::ProcessedWithdrawal::from_bytes(&big), Err(Error::UnexpectedInputWitness));
    let mut max = arr20(1).to_vec();
    max.extend_from_slice(&MAX_MONEY.to_le_bytes());
    assert_eq!(
        stf::ProcessedWithdrawal::from_bytes(&max),
        Ok(stf::ProcessedWithdrawal { pubkey_hash: arr20(1), amount: MAX_MONEY })
    );
    let mut out = vec![9];
    stf::ProcessedWithdrawal { pubkey_hash: arr20(1), amount: 255 }.to_payload(&mut out);
    assert_eq!(out[0], 9);
    assert_eq!(&out[1..], &record[..]);
}
