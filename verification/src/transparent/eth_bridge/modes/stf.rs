//! The STF mode is meant to progress the bridge state,
//! processing deposits and withdrawals.
//!
//! Deposits are represented by UTXO in the Deposit mode,
//! while withdrawals are represented by transparent outputs.
//!
//! Both are enforeced through the witness, with the expectation
//! that hashes of the deposits and withdrawals are included into
//! the public input for ZK proof verification.
use vstd::prelude::*;

use crate::transparent::eth_bridge::amount::{zatoshis_from_u64_le_bytes, MAX_MONEY};
use crate::transparent::eth_bridge::encoding::{
    array_at, array_of, arrays_equal, lemma_array_of, lemma_array_of_view, lemma_u32_le_bytes_of,
    lemma_u32_le_roundtrip, lemma_u64_le_bytes_of, lemma_u64_le_roundtrip, push_all, read_u32_le,
    u32_from_le, u32_le_bytes, u64_from_le, u64_le_bytes, write_u32_le, write_u64_le,
};
use crate::transparent::eth_bridge::context::{Context, TransparentOutput, TzeInput};
use crate::transparent::eth_bridge::error::{outcome, stf_update_error, Error, ErrorModel};
use crate::transparent::eth_bridge::precondition::Precondition as PreconditionEnum;
use crate::transparent::eth_bridge::script::{recipient_address, script_recipient, TransparentRecipient};

verus! {

/// The mode number of the STF mode.
pub const MODE: u32 = 1;

/// The precondition of an STF-mode output: the state root that the STF is at, and the
/// STF's identifier.
#[derive(Debug, PartialEq, Eq)]
pub struct Precondition {
    pub root_hash: [u8; 32],
    pub stf_identifier: [u8; 32],
}

impl Precondition {
    pub fn new(stf_identifier: [u8; 32], root_hash: [u8; 32]) -> (p: Self)
        ensures
            p.stf_identifier == stf_identifier,
            p.root_hash == root_hash,
    {
        Precondition { root_hash, stf_identifier }
    }

    /// The payload of `self`: the STF identifier, then the root hash.
    pub open spec fn spec_payload(self) -> Seq<u8> {
        self.stf_identifier@ + self.root_hash@
    }

    /// The precondition that `payload` encodes: exactly 64 bytes, read as the STF
    /// identifier and the root hash.
    pub open spec fn spec_from_bytes(payload: Seq<u8>) -> Result<Self, Error> {
        if payload.len() != 64 {
            Err(Error::IllegalPayloadLength(payload.len() as usize))
        } else {
            Ok(
                Precondition {
                    root_hash: array_of::<32>(payload.subrange(32, 64)),
                    stf_identifier: array_of::<32>(payload.subrange(0, 32)),
                },
            )
        }
    }

    pub fn to_payload(&self) -> (payload: Vec<u8>)
        ensures
            payload@ == self.spec_payload(),
    {
        let mut payload = Vec::with_capacity(64);
        push_all(&mut payload, &self.stf_identifier);
        push_all(&mut payload, &self.root_hash);
        payload
    }

    /// Parses the payload of an STF-mode precondition.
    pub fn from_bytes(payload: &[u8]) -> (res: Result<Self, Error>)
        ensures
            res == Self::spec_from_bytes(payload@),
    {
        if payload.len() != 64 {
            return Err(Error::IllegalPayloadLength(payload.len()));
        }
        let stf_identifier: [u8; 32] = array_at(payload, 0);
        let root_hash: [u8; 32] = array_at(payload, 32);
        proof {
            lemma_array_of_view(stf_identifier);
            lemma_array_of_view(root_hash);
        }
        Ok(Precondition::new(stf_identifier, root_hash))
    }

    /// Parsing the payload of a precondition gives the precondition back.
    pub proof fn lemma_payload_roundtrip(self)
        ensures
            Self::spec_from_bytes(self.spec_payload()) == Ok::<Self, Error>(self),
    {
        let b = self.spec_payload();
        assert(b.subrange(0, 32) =~= self.stf_identifier@);
        assert(b.subrange(32, 64) =~= self.root_hash@);
        lemma_array_of_view(self.stf_identifier);
        lemma_array_of_view(self.root_hash);
    }

    /// A payload that parses is the payload of what it parses to.
    pub proof fn lemma_payload_canonical(payload: Seq<u8>)
        requires
            Self::spec_from_bytes(payload) is Ok,
        ensures
            Self::spec_from_bytes(payload)->Ok_0.spec_payload() == payload,
    {
        lemma_array_of::<32>(payload.subrange(0, 32));
        lemma_array_of::<32>(payload.subrange(32, 64));
        assert(Self::spec_from_bytes(payload)->Ok_0.spec_payload() =~= payload);
    }
}

/// Whether the amount stored in bytes 20..28 of a 28-byte record is a valid `Zatoshis`.
pub open spec fn amount_ok(record: Seq<u8>) -> bool {
    u64_from_le(record.subrange(20, 28)) <= MAX_MONEY
}

/// A deposit that the STF update processed: the Ethereum address credited and the amount.
#[derive(Debug, Clone, PartialEq, Eq)]
pub struct ProcessedDeposit {
    pub to: [u8; 20],
    pub amount: u64,
}

impl ProcessedDeposit {
    /// Whether the amount is a valid `Zatoshis` amount (at most `MAX_MONEY`), as every
    /// parsed record's is.
    pub open spec fn wf(self) -> bool {
        self.amount <= MAX_MONEY
    }

    /// The 28-byte record of `self`: the address, then the amount in little-endian.
    pub open spec fn spec_payload(self) -> Seq<u8> {
        self.to@ + u64_le_bytes(self.amount)
    }

    /// The deposit that `payload` encodes: exactly 28 bytes whose amount is at most
    /// `MAX_MONEY`.
    pub open spec fn spec_from_bytes(payload: Seq<u8>) -> Result<Self, Error> {
        if payload.len() != 28 {
            Err(Error::IllegalPayloadLength(payload.len() as usize))
        } else if !amount_ok(payload) {
            Err(Error::UnexpectedInputWitness)
        } else {
            Ok(
                ProcessedDeposit {
                    to: array_of::<20>(payload.subrange(0, 20)),
                    amount: u64_from_le(payload.subrange(20, 28)),
                },
            )
        }
    }

    /// Appends the record of `self` to `payload`.
    pub fn to_payload(&self, payload: &mut Vec<u8>)
        ensures
            final(payload)@ == old(payload)@ + self.spec_payload(),
    {
        push_all(payload, &self.to);
        write_u64_le(payload, self.amount);
        assert(payload@ =~= old(payload)@ + self.spec_payload());
    }

    /// Parses the record of a processed deposit.
    pub fn from_bytes(payload: &[u8]) -> (res: Result<Self, Error>)
        ensures
            res == Self::spec_from_bytes(payload@),
            res matches Ok(r) ==> r.wf(),
    {
        if payload.len() != 28 {
            return Err(Error::IllegalPayloadLength(payload.len()));
        }
        let to: [u8; 20] = array_at(payload, 0);
        let amount_bytes: [u8; 8] = array_at(payload, 20);
        let amount = match zatoshis_from_u64_le_bytes(amount_bytes) {
            Ok(v) => v,
            Err(_) => {
                return Err(Error::UnexpectedInputWitness);
            },
        };
        proof {
            lemma_array_of_view(to);
        }
        Ok(ProcessedDeposit { to, amount })
    }

    /// Parsing the record of a deposit with a valid amount gives the deposit back.
    pub proof fn lemma_payload_roundtrip(self)
        requires
            self.wf(),
        ensures
            self.spec_payload().len() == 28,
            Self::spec_from_bytes(self.spec_payload()) == Ok::<Self, Error>(self),
    {
        let b = self.spec_payload();
        lemma_u64_le_roundtrip(self.amount);
        assert(b.subrange(0, 20) =~= self.to@);
        assert(b.subrange(20, 28) =~= u64_le_bytes(self.amount));
        lemma_array_of_view(self.to);
    }

    /// A record that parses is the record of what it parses to.
    pub proof fn lemma_payload_canonical(payload: Seq<u8>)
        requires
            Self::spec_from_bytes(payload) is Ok,
        ensures
            Self::spec_from_bytes(payload)->Ok_0.spec_payload() == payload,
    {
        lemma_array_of::<20>(payload.subrange(0, 20));
        lemma_u64_le_bytes_of(payload.subrange(20, 28));
        assert(Self::spec_from_bytes(payload)->Ok_0.spec_payload() =~= payload);
    }
}

/// A withdrawal that the STF update processed: the transparent public key hash paid and
/// the amount.
#[derive(Debug, Clone, PartialEq, Eq)]
pub struct ProcessedWithdrawal {
    pub pubkey_hash: [u8; 20],
    pub amount: u64,
}

impl ProcessedWithdrawal {
    /// Whether the amount is a valid `Zatoshis` amount (at most `MAX_MONEY`), as every
    /// parsed record's is.
    pub open spec fn wf(self) -> bool {
        self.amount <= MAX_MONEY
    }

    /// The 28-byte record of `self`: the public key hash, then the amount in little-endian.
    pub open spec fn spec_payload(self) -> Seq<u8> {
        self.pubkey_hash@ + u64_le_bytes(self.amount)
    }

    /// The withdrawal that `payload` encodes: exactly 28 bytes whose amount is at most
    /// `MAX_MONEY`.
    pub open spec fn spec_from_bytes(payload: Seq<u8>) -> Result<Self, Error> {
        if payload.len() != 28 {
            Err(Error::IllegalPayloadLength(payload.len() as usize))
        } else if !amount_ok(payload) {
            Err(Error::UnexpectedInputWitness)
        } else {
            Ok(
                ProcessedWithdrawal {
                    pubkey_hash: array_of::<20>(payload.subrange(0, 20)),
                    amount: u64_from_le(payload.subrange(20, 28)),
                },
            )
        }
    }

    /// Appends the record of `self` to `payload`.
    pub fn to_payload(&self, payload: &mut Vec<u8>)
        ensures
            final(payload)@ == old(payload)@ + self.spec_payload(),
    {
        push_all(payload, &self.pubkey_hash);
        write_u64_le(payload, self.amount);
        assert(payload@ =~= old(payload)@ + self.spec_payload());
    }

    /// Parses the record of a processed withdrawal.
    pub fn from_bytes(payload: &[u8]) -> (res: Result<Self, Error>)
        ensures
            res == Self::spec_from_bytes(payload@),
            res matches Ok(r) ==> r.wf(),
    {
        if payload.len() != 28 {
            return Err(Error::IllegalPayloadLength(payload.len()));
        }
        let pubkey_hash: [u8; 20] = array_at(payload, 0);
        let amount_bytes: [u8; 8] = array_at(payload, 20);
        let amount = match zatoshis_from_u64_le_bytes(amount_bytes) {
            Ok(v) => v,
            Err(_) => {
                return Err(Error::UnexpectedInputWitness);
            },
        };
        proof {
            lemma_array_of_view(pubkey_hash);
        }
        Ok(ProcessedWithdrawal { pubkey_hash, amount })
    }

    /// Parsing the record of a withdrawal with a valid amount gives the withdrawal back.
    pub proof fn lemma_payload_roundtrip(self)
        requires
            self.wf(),
        ensures
            self.spec_payload().len() == 28,
            Self::spec_from_bytes(self.spec_payload()) == Ok::<Self, Error>(self),
    {
        let b = self.spec_payload();
        lemma_u64_le_roundtrip(self.amount);
        assert(b.subrange(0, 20) =~= self.pubkey_hash@);
        assert(b.subrange(20, 28) =~= u64_le_bytes(self.amount));
        lemma_array_of_view(self.pubkey_hash);
    }

    /// A record that parses is the record of what it parses to.
    pub proof fn lemma_payload_canonical(payload: Seq<u8>)
        requires
            Self::spec_from_bytes(payload) is Ok,
        ensures
            Self::spec_from_bytes(payload)->Ok_0.spec_payload() == payload,
    {
        lemma_array_of::<20>(payload.subrange(0, 20));
        lemma_u64_le_bytes_of(payload.subrange(20, 28));
        assert(Self::spec_from_bytes(payload)->Ok_0.spec_payload() =~= payload);
    }
}

/// The concatenation of `records`, first to last.
pub open spec fn concat(records: Seq<Seq<u8>>) -> Seq<u8>
    decreases records.len(),
{
    if records.len() == 0 {
        Seq::empty()
    } else {
        concat(records.drop_last()) + records.last()
    }
}

/// The records of `deposits`, one after the other.
pub open spec fn deposits_payload(deposits: Seq<ProcessedDeposit>) -> Seq<u8> {
    concat(deposits.map_values(|d: ProcessedDeposit| d.spec_payload()))
}

/// The records of `withdrawals`, one after the other.
pub open spec fn withdrawals_payload(withdrawals: Seq<ProcessedWithdrawal>) -> Seq<u8> {
    concat(withdrawals.map_values(|w: ProcessedWithdrawal| w.spec_payload()))
}

/// The `i`-th 28-byte record of the run of records that starts at byte `start` of `payload`.
pub open spec fn record(payload: Seq<u8>, start: int, i: int) -> Seq<u8> {
    payload.subrange(start + 28 * i, start + 28 * i + 28)
}

/// Records of 28 bytes each, concatenated: each stands at its own offset.
proof fn lemma_concat_records(records: Seq<Seq<u8>>)
    requires
        forall|i: int| 0 <= i < records.len() ==> (#[trigger] records[i]).len() == 28,
    ensures
        concat(records).len() == 28 * records.len(),
        forall|i: int|
            0 <= i < records.len() ==> #[trigger] record(concat(records), 0, i) == records[i],
    decreases records.len(),
{
    if records.len() > 0 {
        let init = records.drop_last();
        lemma_concat_records(init);
        let c = concat(records);
        assert(c == concat(init) + records.last());
        assert forall|i: int| 0 <= i < records.len() implies #[trigger] record(c, 0, i)
            == records[i] by {
            if i < records.len() - 1 {
                assert(record(concat(init), 0, i) == init[i]);
                assert(record(c, 0, i) =~= record(concat(init), 0, i));
            } else {
                assert(record(c, 0, i) =~= records.last());
            }
        }
    }
}

/// A run of 28-byte records read from `payload` concatenates back to that part of `payload`.
proof fn lemma_records_concat(records: Seq<Seq<u8>>, payload: Seq<u8>, start: int)
    requires
        0 <= start,
        start + 28 * records.len() <= payload.len(),
        forall|i: int| 0 <= i < records.len() ==> #[trigger] records[i] == record(payload, start, i),
    ensures
        concat(records) == payload.subrange(start, start + 28 * records.len()),
    decreases records.len(),
{
    if records.len() > 0 {
        let init = records.drop_last();
        lemma_records_concat(init, payload, start);
        assert(records.last() == record(payload, start, records.len() - 1));
        assert(concat(records) =~= payload.subrange(start, start + 28 * records.len()));
    }
}

/// The value of an STF witness: the new state root, the STF's identifier, and the
/// deposits and withdrawals that the update processed, in order.
#[verifier::ext_equal]
pub struct WitnessView {
    pub new_root_hash: [u8; 32],
    pub stf_identifier: [u8; 32],
    pub processed_deposits: Seq<ProcessedDeposit>,
    pub processed_withdrawals: Seq<ProcessedWithdrawal>,
}

impl WitnessView {
    /// The payload of an STF witness: the STF identifier, the new root hash, the numbers
    /// of deposits and of withdrawals as little-endian `u32`s (cut to 32 bits, as `as u32`
    /// does), then the deposit records and the withdrawal records.
    pub open spec fn spec_payload(self) -> Seq<u8> {
        self.stf_identifier@ + self.new_root_hash@ + u32_le_bytes(
            self.processed_deposits.len() as u32,
        ) + u32_le_bytes(self.processed_withdrawals.len() as u32) + deposits_payload(
            self.processed_deposits,
        ) + withdrawals_payload(self.processed_withdrawals)
    }

    /// Whether the payload of `self` parses back: both counts fit in a `u32` and every
    /// amount is at most `MAX_MONEY`.
    pub open spec fn is_encodable(self) -> bool {
        &&& self.processed_deposits.len() <= u32::MAX
        &&& self.processed_withdrawals.len() <= u32::MAX
        &&& forall|i: int|
            0 <= i < self.processed_deposits.len() ==> (#[trigger] self.processed_deposits[i]).wf()
        &&& forall|i: int|
            0 <= i < self.processed_withdrawals.len() ==> (
            #[trigger] self.processed_withdrawals[i]).wf()
    }
}

/// The witness of an STF-mode input: the update of the bridge state.
#[derive(Debug, PartialEq, Eq)]
pub struct Witness {
    pub new_root_hash: [u8; 32],
    pub stf_identifier: [u8; 32],
    pub processed_deposits: Vec<ProcessedDeposit>,
    pub processed_withdrawals: Vec<ProcessedWithdrawal>,
}

impl View for Witness {
    type V = WitnessView;

    open spec fn view(&self) -> WitnessView {
        WitnessView {
            new_root_hash: self.new_root_hash,
            stf_identifier: self.stf_identifier,
            processed_deposits: self.processed_deposits@,
            processed_withdrawals: self.processed_withdrawals@,
        }
    }
}

impl Witness {
    /// The witness that `payload` encodes. It holds at least 72 bytes: the STF identifier,
    /// the new root hash, and the numbers `nd` of deposits and `nw` of withdrawals as
    /// little-endian `u32`s; then exactly `nd` deposit records and `nw` withdrawal records of
    /// 28 bytes each follow. Any amount above `MAX_MONEY` rejects the witness.
    pub open spec fn spec_from_bytes(payload: Seq<u8>) -> Result<WitnessView, Error> {
        let len = payload.len();
        if len < 72 {
            Err(Error::IllegalPayloadLength(len as usize))
        } else {
            let nd = u32_from_le(payload.subrange(64, 68)) as int;
            let nw = u32_from_le(payload.subrange(68, 72)) as int;
            let withdrawals_start = 72 + 28 * nd;
            if len != 72 + 28 * nd + 28 * nw {
                Err(Error::IllegalPayloadLength(len as usize))
            } else if exists|i: int|
                0 <= i < nd && !amount_ok(#[trigger] record(payload, 72, i)) {
                Err(Error::UnexpectedInputWitness)
            } else if exists|i: int|
                0 <= i < nw && !amount_ok(#[trigger] record(payload, withdrawals_start, i)) {
                Err(Error::UnexpectedInputWitness)
            } else {
                Ok(
                    WitnessView {
                        new_root_hash: array_of::<32>(payload.subrange(32, 64)),
                        stf_identifier: array_of::<32>(payload.subrange(0, 32)),
                        processed_deposits: Seq::new(
                            nd as nat,
                            |i: int| ProcessedDeposit::spec_from_bytes(record(payload, 72, i))->Ok_0,
                        ),
                        processed_withdrawals: Seq::new(
                            nw as nat,
                            |i: int|
                                ProcessedWithdrawal::spec_from_bytes(
                                    record(payload, withdrawals_start, i),
                                )->Ok_0,
                        ),
                    },
                )
            }
        }
    }

    /// Serializes `self`.
    pub fn to_payload(&self) -> (payload: Vec<u8>)
        ensures
            payload@ == self@.spec_payload(),
    {
        let mut payload = Vec::with_capacity(64);
        push_all(&mut payload, &self.stf_identifier);
        push_all(&mut payload, &self.new_root_hash);
        let n_deposits = self.processed_deposits.len() as u32;
        write_u32_le(&mut payload, n_deposits);
        let n_withdrawals = self.processed_withdrawals.len() as u32;
        write_u32_le(&mut payload, n_withdrawals);
        let ghost header = payload@;
        let deposits = &self.processed_deposits;
        let mut i: usize = 0;
        while i < deposits.len()
            invariant
                i <= deposits@.len(),
                payload@ == header + deposits_payload(deposits@.take(i as int)),
            decreases deposits@.len() - i,
        {
            deposits[i].to_payload(&mut payload);
            proof {
                let f = |d: ProcessedDeposit| d.spec_payload();
                assert(deposits@.take(i + 1).map_values(f).drop_last() =~= deposits@.take(
                    i as int,
                ).map_values(f));
            }
            i = i + 1;
        }
        assert(deposits@.take(deposits@.len() as int) =~= deposits@);
        let ghost middle = payload@;
        let withdrawals = &self.processed_withdrawals;
        let mut j: usize = 0;
        while j < withdrawals.len()
            invariant
                j <= withdrawals@.len(),
                payload@ == middle + withdrawals_payload(withdrawals@.take(j as int)),
            decreases withdrawals@.len() - j,
        {
            withdrawals[j].to_payload(&mut payload);
            proof {
                let f = |w: ProcessedWithdrawal| w.spec_payload();
                assert(withdrawals@.take(j + 1).map_values(f).drop_last() =~= withdrawals@.take(
                    j as int,
                ).map_values(f));
            }
            j = j + 1;
        }
        assert(withdrawals@.take(withdrawals@.len() as int) =~= withdrawals@);
        assert(payload@ =~= self@.spec_payload());
        payload
    }
    /// Parses the payload of an STF-mode witness.
    pub fn from_bytes(payload: &[u8]) -> (res: Result<Self, Error>)
        ensures
            match res {
                Ok(w) => Self::spec_from_bytes(payload@) == Ok::<WitnessView, Error>(w@),
                Err(e) => Self::spec_from_bytes(payload@) == Err::<WitnessView, Error>(e),
            },
            res matches Ok(w) ==> w@.is_encodable(),
    {
        let len = payload.len();
        if len < 72 {
            return Err(Error::IllegalPayloadLength(len));
        }
        let stf_identifier: [u8; 32] = array_at(payload, 0);
        let new_root_hash: [u8; 32] = array_at(payload, 32);
        let n_deposits = read_u32_le(payload, 64);
        let n_withdrawals = read_u32_le(payload, 68);
        let expected_len: u64 = 72u64 + (n_deposits as u64) * 28u64 + (n_withdrawals as u64)
            * 28u64;
        if len as u64 != expected_len {
            return Err(Error::IllegalPayloadLength(len));
        }
        let ghost b = payload@;
        let nd = n_deposits as usize;
        let nw = n_withdrawals as usize;
        let withdrawals_start: usize = 72 + nd * 28;
        let mut processed_deposits: Vec<ProcessedDeposit> = Vec::new();
        let mut i: usize = 0;
        while i < nd
            invariant
                i <= nd,
                len == b.len(),
                b == payload@,
                len == 72 + 28 * nd + 28 * nw,
                nd == u32_from_le(b.subrange(64, 68)),
                nw == u32_from_le(b.subrange(68, 72)),
                processed_deposits@.len() == i,
                forall|k: int|
                    0 <= k < i ==> amount_ok(#[trigger] record(b, 72, k))
                        && processed_deposits@[k] == ProcessedDeposit::spec_from_bytes(
                        record(b, 72, k),
                    )->Ok_0,
            decreases nd - i,
        {
            let start = 72 + i * 28;
            let deposit = match ProcessedDeposit::from_bytes(
                vstd::slice::slice_subrange(payload, start, start + 28),
            ) {
                Ok(d) => d,
                Err(e) => {
                    assert(!amount_ok(record(b, 72, i as int)));
                    return Err(e);
                },
            };
            processed_deposits.push(deposit);
            i = i + 1;
        }
        let mut processed_withdrawals: Vec<ProcessedWithdrawal> = Vec::new();
        let mut j: usize = 0;
        while j < nw
            invariant
                j <= nw,
                len == b.len(),
                b == payload@,
                len == 72 + 28 * nd + 28 * nw,
                withdrawals_start == 72 + 28 * nd,
                nd == u32_from_le(b.subrange(64, 68)),
                nw == u32_from_le(b.subrange(68, 72)),
                forall|k: int| 0 <= k < nd ==> amount_ok(#[trigger] record(b, 72, k)),
                processed_withdrawals@.len() == j,
                forall|k: int|
                    0 <= k < j ==> amount_ok(#[trigger] record(b, withdrawals_start as int, k))
                        && processed_withdrawals@[k] == ProcessedWithdrawal::spec_from_bytes(
                        record(b, withdrawals_start as int, k),
                    )->Ok_0,
            decreases nw - j,
        {
            let start = withdrawals_start + j * 28;
            let withdrawal = match ProcessedWithdrawal::from_bytes(
                vstd::slice::slice_subrange(payload, start, start + 28),
            ) {
                Ok(w) => w,
                Err(e) => {
                    assert(!amount_ok(record(b, withdrawals_start as int, j as int)));
                    return Err(e);
                },
            };
            processed_withdrawals.push(withdrawal);
            j = j + 1;
        }
        let w = Witness { new_root_hash, stf_identifier, processed_deposits, processed_withdrawals };
        proof {
            lemma_array_of_view(stf_identifier);
            lemma_array_of_view(new_root_hash);
            let spec = Self::spec_from_bytes(b)->Ok_0;
            assert(spec.processed_deposits =~= w.processed_deposits@);
            assert(spec.processed_withdrawals =~= w.processed_withdrawals@);
        }
        Ok(w)
    }
}

/// Parsing the payload of an encodable STF witness gives the witness back.
pub proof fn lemma_witness_payload_roundtrip(w: WitnessView)
    requires
        w.is_encodable(),
    ensures
        Witness::spec_from_bytes(w.spec_payload()) == Ok::<WitnessView, Error>(w),
{
    let ds = w.processed_deposits;
    let ws = w.processed_withdrawals;
    let nd = ds.len() as int;
    let nw = ws.len() as int;
    let fd = |d: ProcessedDeposit| d.spec_payload();
    let fw = |x: ProcessedWithdrawal| x.spec_payload();
    let dr = ds.map_values(fd);
    let wr = ws.map_values(fw);
    assert forall|i: int| 0 <= i < dr.len() implies (#[trigger] dr[i]).len() == 28 by {
        ds[i].lemma_payload_roundtrip();
    }
    assert forall|i: int| 0 <= i < wr.len() implies (#[trigger] wr[i]).len() == 28 by {
        ws[i].lemma_payload_roundtrip();
    }
    lemma_concat_records(dr);
    lemma_concat_records(wr);
    let e = deposits_payload(ds);
    let f = withdrawals_payload(ws);
    let c = u32_le_bytes(nd as u32);
    let d = u32_le_bytes(nw as u32);
    lemma_u32_le_roundtrip(nd as u32);
    lemma_u32_le_roundtrip(nw as u32);
    let b = w.spec_payload();
    assert(b == w.stf_identifier@ + w.new_root_hash@ + c + d + e + f);
    assert(b.len() == 72 + 28 * nd + 28 * nw);
    assert(b.subrange(64, 68) =~= c);
    assert(b.subrange(68, 72) =~= d);
    assert(b.subrange(0, 32) =~= w.stf_identifier@);
    assert(b.subrange(32, 64) =~= w.new_root_hash@);
    lemma_array_of_view(w.stf_identifier);
    lemma_array_of_view(w.new_root_hash);
    let ws_start = 72 + 28 * nd;
    assert forall|i: int| 0 <= i < nd implies #[trigger] record(b, 72, i) == ds[i].spec_payload()
        && amount_ok(record(b, 72, i)) && ProcessedDeposit::spec_from_bytes(record(b, 72, i))
        == Ok::<ProcessedDeposit, Error>(ds[i]) by {
        assert(record(e, 0, i) == dr[i]);
        assert(record(b, 72, i) =~= record(e, 0, i));
        ds[i].lemma_payload_roundtrip();
    }
    assert forall|i: int| 0 <= i < nw implies #[trigger] record(b, ws_start, i)
        == ws[i].spec_payload() && amount_ok(record(b, ws_start, i))
        && ProcessedWithdrawal::spec_from_bytes(record(b, ws_start, i)) == Ok::<
        ProcessedWithdrawal,
        Error,
    >(ws[i]) by {
        assert(record(f, 0, i) == wr[i]);
        assert(record(b, ws_start, i) =~= record(f, 0, i));
        ws[i].lemma_payload_roundtrip();
    }
    let parsed = Witness::spec_from_bytes(b)->Ok_0;
    assert(parsed.processed_deposits =~= ds);
    assert(parsed.processed_withdrawals =~= ws);
    assert(parsed =~= w);
}

/// A payload that parses as an STF witness is the payload of what it parses to.
pub proof fn lemma_witness_payload_canonical(payload: Seq<u8>)
    requires
        Witness::spec_from_bytes(payload) is Ok,
    ensures
        Witness::spec_from_bytes(payload)->Ok_0.spec_payload() == payload,
{
    let w = Witness::spec_from_bytes(payload)->Ok_0;
    let b = payload;
    let nd = u32_from_le(b.subrange(64, 68)) as int;
    let nw = u32_from_le(b.subrange(68, 72)) as int;
    let ws_start = 72 + 28 * nd;
    let ds = w.processed_deposits;
    let ws = w.processed_withdrawals;
    let dr = ds.map_values(|d: ProcessedDeposit| d.spec_payload());
    let wr = ws.map_values(|x: ProcessedWithdrawal| x.spec_payload());
    assert forall|i: int| 0 <= i < dr.len() implies #[trigger] dr[i] == record(b, 72, i) by {
        assert(amount_ok(record(b, 72, i)));
        ProcessedDeposit::lemma_payload_canonical(record(b, 72, i));
    }
    assert forall|i: int| 0 <= i < wr.len() implies #[trigger] wr[i] == record(b, ws_start, i) by {
        assert(amount_ok(record(b, ws_start, i)));
        ProcessedWithdrawal::lemma_payload_canonical(record(b, ws_start, i));
    }
    lemma_records_concat(dr, b, 72);
    lemma_records_concat(wr, b, ws_start);
    lemma_u32_le_bytes_of(b.subrange(64, 68));
    lemma_u32_le_bytes_of(b.subrange(68, 72));
    lemma_array_of::<32>(b.subrange(0, 32));
    lemma_array_of::<32>(b.subrange(32, 64));
    assert(w.spec_payload() =~= b);
}

/// A transparent output with its recipient read from its script.
#[derive(Debug, Clone, Copy, PartialEq, Eq)]
pub struct ResolvedOutput {
    pub recipient: Option<TransparentRecipient>,
    pub value: u64,
}

/// The output `output` with its recipient read from its `script_pubkey`.
pub open spec fn resolve(output: TransparentOutput) -> ResolvedOutput {
    ResolvedOutput { recipient: script_recipient(output.script_pubkey@), value: output.value }
}

/// The last withdrawal of `withdrawals` to the public key hash `hash`, if any: the one
/// that a map from hashes to withdrawals, filled in order, holds for `hash`.
pub open spec fn withdrawal_for(withdrawals: Seq<ProcessedWithdrawal>, hash: [u8; 20]) -> Option<
    ProcessedWithdrawal,
>
    decreases withdrawals.len(),
{
    if withdrawals.len() == 0 {
        None
    } else if withdrawals.last().pubkey_hash == hash {
        Some(withdrawals.last())
    } else {
        withdrawal_for(withdrawals.drop_last(), hash)
    }
}

/// Whether `output` pays a public key hash that a withdrawal is for, with a value other
/// than that withdrawal's amount.
pub open spec fn pays_wrong_amount(withdrawals: Seq<ProcessedWithdrawal>, output: ResolvedOutput) -> bool {
    match output.recipient {
        Some(TransparentRecipient::PublicKeyHash(hash)) => match withdrawal_for(withdrawals, hash) {
            Some(w) => w.amount != output.value,
            None => false,
        },
        _ => false,
    }
}

/// Whether some output of `outputs` pays to the public key hash `hash`.
pub open spec fn is_paid(hash: [u8; 20], outputs: Seq<ResolvedOutput>) -> bool {
    exists|i: int|
        0 <= i < outputs.len() && (#[trigger] outputs[i]).recipient == Some(
            TransparentRecipient::PublicKeyHash(hash),
        )
}

/// What checking `withdrawals` against the transparent outputs `outputs` gives: no output
/// to a withdrawn public key hash carries another amount than the (last) withdrawal to
/// that hash, and every withdrawal's hash is paid by some output.
pub open spec fn spec_check_withdrawals(
    withdrawals: Seq<ProcessedWithdrawal>,
    outputs: Seq<ResolvedOutput>,
) -> Result<(), ErrorModel> {
    if exists|i: int| 0 <= i < outputs.len() && pays_wrong_amount(withdrawals, #[trigger] outputs[i]) {
        Err(
            ErrorModel::InvalidStfUpdate(
                "Transparent output value does not match withdrawal amount"@,
            ),
        )
    } else if exists|j: int|
        0 <= j < withdrawals.len() && !is_paid((#[trigger] withdrawals[j]).pubkey_hash, outputs) {
        Err(ErrorModel::InvalidStfUpdate("Some withdrawals were not covered by transparent outputs"@))
    } else {
        Ok(())
    }
}

/// A hash that no withdrawal is for has no withdrawal.
proof fn lemma_withdrawal_for_none(withdrawals: Seq<ProcessedWithdrawal>, hash: [u8; 20])
    requires
        withdrawal_for(withdrawals, hash) is None,
    ensures
        forall|j: int|
            0 <= j < withdrawals.len() ==> (#[trigger] withdrawals[j]).pubkey_hash != hash,
    decreases withdrawals.len(),
{
    if withdrawals.len() > 0 {
        lemma_withdrawal_for_none(withdrawals.drop_last(), hash);
        assert forall|j: int| 0 <= j < withdrawals.len() implies (
        #[trigger] withdrawals[j]).pubkey_hash != hash by {
            if j < withdrawals.len() - 1 {
                assert(withdrawals.drop_last()[j] == withdrawals[j]);
            }
        }
    }
}

/// The index of the last withdrawal to `hash`, if any.
fn find_withdrawal(withdrawals: &[ProcessedWithdrawal], hash: &[u8; 20]) -> (r: Option<usize>)
    ensures
        match r {
            Some(k) => k < withdrawals@.len() && withdrawal_for(withdrawals@, *hash) == Some(
                withdrawals@[k as int],
            ),
            None => withdrawal_for(withdrawals@, *hash) is None,
        },
{
    let ghost ws = withdrawals@;
    let mut found: Option<usize> = None;
    let mut i: usize = 0;
    while i < withdrawals.len()
        invariant
            i <= ws.len(),
            ws == withdrawals@,
            match found {
                Some(k) => k < i && withdrawal_for(ws.take(i as int), *hash) == Some(ws[k as int]),
                None => withdrawal_for(ws.take(i as int), *hash) is None,
            },
        decreases ws.len() - i,
    {
        assert(ws.take(i + 1).drop_last() =~= ws.take(i as int));
        if arrays_equal(&withdrawals[i].pubkey_hash, hash) {
            found = Some(i);
        }
        i = i + 1;
    }
    assert(ws.take(ws.len() as int) =~= ws);
    found
}

/// Checks that the transparent outputs `outputs` pay out `withdrawals`.
pub fn check_withdrawals(withdrawals: &[ProcessedWithdrawal], outputs: &[ResolvedOutput]) -> (res:
    Result<(), Error>)
    ensures
        outcome(res) == spec_check_withdrawals(withdrawals@, outputs@),
{
    let ghost ws = withdrawals@;
    let ghost os = outputs@;
    let mut covered: Vec<bool> = Vec::new();
    let mut j: usize = 0;
    while j < withdrawals.len()
        invariant
            j <= ws.len(),
            ws == withdrawals@,
            covered@.len() == j,
            forall|k: int| 0 <= k < j ==> !covered@[k],
        decreases ws.len() - j,
    {
        covered.push(false);
        j = j + 1;
    }
    let mut i: usize = 0;
    while i < outputs.len()
        invariant
            i <= os.len(),
            ws == withdrawals@,
            os == outputs@,
            covered@.len() == ws.len(),
            forall|k: int| 0 <= k < i ==> !pays_wrong_amount(ws, #[trigger] os[k]),
            forall|k: int|
                0 <= k < ws.len() ==> (covered@[k] <==> exists|m: int|
                    0 <= m < i && (#[trigger] os[m]).recipient == Some(
                        TransparentRecipient::PublicKeyHash(ws[k].pubkey_hash),
                    )),
        decreases os.len() - i,
    {
        let ghost prev = covered@;
        if let Some(TransparentRecipient::PublicKeyHash(hash)) = outputs[i].recipient {
            match find_withdrawal(withdrawals, &hash) {
                Some(k) => {
                    if withdrawals[k].amount != outputs[i].value {
                        assert(pays_wrong_amount(ws, os[i as int]));
                        return Err(
                            stf_update_error(
                                "Transparent output value does not match withdrawal amount",
                            ),
                        );
                    }
                    let mut j: usize = 0;
                    while j < withdrawals.len()
                        invariant
                            j <= ws.len(),
                            ws == withdrawals@,
                            covered@.len() == ws.len(),
                            forall|k: int|
                                0 <= k < ws.len() ==> #[trigger] covered@[k] == if k < j
                                    && ws[k].pubkey_hash == hash {
                                    true
                                } else {
                                    prev[k]
                                },
                        decreases ws.len() - j,
                    {
                        if arrays_equal(&withdrawals[j].pubkey_hash, &hash) {
                            covered.set(j, true);
                        }
                        j = j + 1;
                    }
                },
                None => {
                    proof {
                        lemma_withdrawal_for_none(ws, hash);
                    }
                },
            }
        }
        assert forall|k: int| 0 <= k < ws.len() implies (covered@[k] <==> exists|m: int|
            0 <= m < i + 1 && (#[trigger] os[m]).recipient == Some(
                TransparentRecipient::PublicKeyHash(ws[k].pubkey_hash),
            )) by {
            if os[i as int].recipient == Some(TransparentRecipient::PublicKeyHash(ws[k].pubkey_hash)) {
                assert(covered@[k]);
            }
        }
        i = i + 1;
    }
    let mut k: usize = 0;
    while k < withdrawals.len()
        invariant
            k <= ws.len(),
            ws == withdrawals@,
            os == outputs@,
            covered@.len() == ws.len(),
            forall|k: int| 0 <= k < os.len() ==> !pays_wrong_amount(ws, #[trigger] os[k]),
            forall|q: int| 0 <= q < ws.len() ==> (covered@[q] <==> is_paid(ws[q].pubkey_hash, os)),
            forall|q: int| 0 <= q < k ==> is_paid((#[trigger] ws[q]).pubkey_hash, os),
        decreases ws.len() - k,
    {
        if !covered[k] {
            assert(!is_paid(ws[k as int].pubkey_hash, os));
            return Err(stf_update_error("Some withdrawals were not covered by transparent outputs"));
        }
        k = k + 1;
    }
    Ok(())
}

/// The TZE inputs among `inputs` that carry an STF-mode witness, in order.
pub open spec fn stf_inputs(inputs: Seq<TzeInput>) -> Seq<TzeInput>
    decreases inputs.len(),
{
    if inputs.len() == 0 {
        Seq::empty()
    } else if inputs.last().witness_mode == MODE {
        stf_inputs(inputs.drop_last()).push(inputs.last())
    } else {
        stf_inputs(inputs.drop_last())
    }
}

/// The TZE inputs among `inputs` that do not carry an STF-mode witness (the deposits), in
/// order.
pub open spec fn deposit_inputs(inputs: Seq<TzeInput>) -> Seq<TzeInput>
    decreases inputs.len(),
{
    if inputs.len() == 0 {
        Seq::empty()
    } else if inputs.last().witness_mode != MODE {
        deposit_inputs(inputs.drop_last()).push(inputs.last())
    } else {
        deposit_inputs(inputs.drop_last())
    }
}

/// What verifying an STF update gives, check by check: the transaction has one TZE input
/// per processed deposit plus the STF input, exactly one TZE output, and at least one
/// transparent output per withdrawal; the precondition's root hash and STF identifier are
/// those of the witness; exactly one input is an STF input and the others are the
/// deposits; the output's precondition is an STF precondition at the witness's new root
/// hash; and the transparent outputs pay out the withdrawals.
pub open spec fn spec_verify(precondition: Precondition, witness: WitnessView, context: Context) -> Result<
    (),
    ErrorModel,
> {
    let inputs = context.tze_inputs@;
    let outputs = context.tze_outputs@;
    let transparent_outputs = context.transparent_outputs@;
    let n_deposits = witness.processed_deposits.len();
    let n_withdrawals = witness.processed_withdrawals.len();
    if inputs.len() != n_deposits + 1 {
        Err(
            ErrorModel::IncorrectTzeInputsAmount {
                expected: (n_deposits + 1) as usize,
                provided: inputs.len() as usize,
            },
        )
    } else if outputs.len() != 1 {
        Err(ErrorModel::IncorrectTzeOutputsAmount { expected: 1, provided: outputs.len() as usize })
    } else if transparent_outputs.len() < n_withdrawals {
        Err(
            ErrorModel::IncorrectTransparentOutputsAmount {
                expected: n_withdrawals as usize,
                provided: transparent_outputs.len() as usize,
            },
        )
    } else if precondition.root_hash != witness.new_root_hash {
        Err(ErrorModel::InvalidStfUpdate("Root hash mismatch"@))
    } else if precondition.stf_identifier != witness.stf_identifier {
        Err(ErrorModel::InvalidStfUpdate("STF identifier mismatch"@))
    } else if stf_inputs(inputs).len() != 1 || deposit_inputs(inputs).len() != n_deposits {
        Err(ErrorModel::InvalidStfUpdate("Incorrect number of STF or deposit inputs"@))
    } else {
        match PreconditionEnum::spec_from_payload(
            outputs[0].precondition_mode,
            outputs[0].precondition_payload@,
        ) {
            Ok(PreconditionEnum::Stf(p)) => {
                if p.root_hash != witness.new_root_hash {
                    Err(ErrorModel::InvalidStfUpdate("Root hash mismatch"@))
                } else {
                    spec_check_withdrawals(
                        witness.processed_withdrawals,
                        transparent_outputs.map_values(|o: TransparentOutput| resolve(o)),
                    )
                }
            },
            _ => Err(ErrorModel::UnexpectedOutputPrecondition),
        }
    }
}

/// Verifies an STF update: the consumption of an STF-mode output by the transaction of
/// `context`, with `witness`.
pub fn verify(precondition: &Precondition, witness: &Witness, context: &Context) -> (res: Result<
    (),
    Error,
>)
    requires
        witness.processed_deposits@.len() < usize::MAX,
    ensures
        outcome(res) == spec_verify(*precondition, witness@, *context),
{
    let expected_inputs_amount = witness.processed_deposits.len() + 1;
    let tze_inputs = context.tx_tze_inputs();
    if tze_inputs.len() != expected_inputs_amount {
        return Err(
            Error::IncorrectTzeInputsAmount {
                expected: expected_inputs_amount,
                provided: tze_inputs.len(),
            },
        );
    }
    let tze_outputs = context.tx_tze_outputs();
    if tze_outputs.len() != 1 {
        return Err(Error::IncorrectTzeOutputsAmount { expected: 1, provided: tze_outputs.len() });
    }
    let transparent_outputs = context.tx_transparent_outputs();
    let expected_outputs_amount = witness.processed_withdrawals.len();
    if transparent_outputs.len() < expected_outputs_amount {
        return Err(
            Error::IncorrectTransparentOutputsAmount {
                expected: expected_outputs_amount,
                provided: transparent_outputs.len(),
            },
        );
    }
    if !arrays_equal(&precondition.root_hash, &witness.new_root_hash) {
        return Err(stf_update_error("Root hash mismatch"));
    }
    if !arrays_equal(&precondition.stf_identifier, &witness.stf_identifier) {
        return Err(stf_update_error("STF identifier mismatch"));
    }
    let ghost inputs = tze_inputs@;
    let mut n_stf: usize = 0;
    let mut n_deposit: usize = 0;
    let mut i: usize = 0;
    while i < tze_inputs.len()
        invariant
            i <= inputs.len(),
            inputs == tze_inputs@,
            n_stf + n_deposit == i,
            stf_inputs(inputs.take(i as int)).len() == n_stf,
            deposit_inputs(inputs.take(i as int)).len() == n_deposit,
        decreases inputs.len() - i,
    {
        assert(inputs.take(i + 1).drop_last() =~= inputs.take(i as int));
        if tze_inputs[i].witness_mode == MODE {
            n_stf = n_stf + 1;
        } else {
            n_deposit = n_deposit + 1;
        }
        i = i + 1;
    }
    assert(inputs.take(inputs.len() as int) =~= inputs);
    if n_stf != 1 || n_deposit != witness.processed_deposits.len() {
        return Err(stf_update_error("Incorrect number of STF or deposit inputs"));
    }
    let stf_out = &tze_outputs[0];
    let p = match PreconditionEnum::from_payload(
        stf_out.precondition_mode,
        &stf_out.precondition_payload,
    ) {
        Ok(PreconditionEnum::Stf(p)) => p,
        _ => {
            return Err(Error::UnexpectedOutputPrecondition);
        },
    };
    if !arrays_equal(&p.root_hash, &witness.new_root_hash) {
        return Err(stf_update_error("Root hash mismatch"));
    }
    let ghost touts = transparent_outputs@;
    let mut resolved: Vec<ResolvedOutput> = Vec::new();
    let mut j: usize = 0;
    while j < transparent_outputs.len()
        invariant
            j <= touts.len(),
            touts == transparent_outputs@,
            resolved@ == touts.take(j as int).map_values(|o: TransparentOutput| resolve(o)),
        decreases touts.len() - j,
    {
        let output = &transparent_outputs[j];
        resolved.push(
            ResolvedOutput {
                recipient: recipient_address(output.script_pubkey.as_slice()),
                value: output.value,
            },
        );
        assert(resolved@ =~= touts.take(j + 1).map_values(|o: TransparentOutput| resolve(o)));
        j = j + 1;
    }
    assert(touts.take(touts.len() as int) =~= touts);
    check_withdrawals(witness.processed_withdrawals.as_slice(), resolved.as_slice())
}

/// A hash that some withdrawal is for has a (last) withdrawal, with that hash.
proof fn lemma_withdrawal_for_some(withdrawals: Seq<ProcessedWithdrawal>, j: int)
    requires
        0 <= j < withdrawals.len(),
    ensures
        withdrawal_for(withdrawals, withdrawals[j].pubkey_hash) matches Some(w) && w.pubkey_hash
            == withdrawals[j].pubkey_hash,
    decreases withdrawals.len(),
{
    if j < withdrawals.len() - 1 && withdrawals.last().pubkey_hash != withdrawals[j].pubkey_hash {
        lemma_withdrawal_for_some(withdrawals.drop_last(), j);
    }
}

/// What an accepted STF update guarantees of its transaction: one TZE input per processed
/// deposit besides the single STF input, a single TZE output that carries an STF
/// precondition at the witness's new root hash (which is also the root hash of the
/// precondition being spent, for the same STF), and for every withdrawal a transparent
/// output to its public key hash that pays exactly the amount of the last withdrawal to
/// that hash, with no output to a withdrawn hash paying anything else.
pub proof fn lemma_stf_update_accepted(
    precondition: Precondition,
    witness: WitnessView,
    context: Context,
)
    requires
        spec_verify(precondition, witness, context) is Ok,
    ensures
        context.tze_inputs@.len() == witness.processed_deposits.len() + 1,
        stf_inputs(context.tze_inputs@).len() == 1,
        deposit_inputs(context.tze_inputs@).len() == witness.processed_deposits.len(),
        context.tze_outputs@.len() == 1,
        context.transparent_outputs@.len() >= witness.processed_withdrawals.len(),
        precondition.root_hash == witness.new_root_hash,
        precondition.stf_identifier == witness.stf_identifier,
        PreconditionEnum::spec_from_payload(
            context.tze_outputs@[0].precondition_mode,
            context.tze_outputs@[0].precondition_payload@,
        ) matches Ok(PreconditionEnum::Stf(p)) && p.root_hash == witness.new_root_hash,
        forall|j: int|
            0 <= j < witness.processed_withdrawals.len() ==> exists|i: int|
                0 <= i < context.transparent_outputs@.len() && #[trigger] resolve(
                    context.transparent_outputs@[i],
                ).recipient == Some(
                    TransparentRecipient::PublicKeyHash(
                        (#[trigger] witness.processed_withdrawals[j]).pubkey_hash,
                    ),
                ) && context.transparent_outputs@[i].value == withdrawal_for(
                    witness.processed_withdrawals,
                    witness.processed_withdrawals[j].pubkey_hash,
                )->Some_0.amount,
{
    let ws = witness.processed_withdrawals;
    let touts = context.transparent_outputs@;
    let rs = touts.map_values(|o: TransparentOutput| resolve(o));
    assert forall|j: int| 0 <= j < ws.len() implies exists|i: int|
        0 <= i < touts.len() && #[trigger] resolve(touts[i]).recipient == Some(
            TransparentRecipient::PublicKeyHash((#[trigger] ws[j]).pubkey_hash),
        ) && touts[i].value == withdrawal_for(ws, ws[j].pubkey_hash)->Some_0.amount by {
        assert(is_paid(ws[j].pubkey_hash, rs));
        let i = choose|i: int|
            0 <= i < rs.len() && (#[trigger] rs[i]).recipient == Some(
                TransparentRecipient::PublicKeyHash(ws[j].pubkey_hash),
            );
        assert(!pays_wrong_amount(ws, rs[i]));
        lemma_withdrawal_for_some(ws, j);
        assert(resolve(touts[i]) == rs[i]);
    }
}

/// The STF inputs of two runs of inputs, one after the other, are those of each.
proof fn lemma_stf_inputs_concat(a: Seq<TzeInput>, b: Seq<TzeInput>)
    ensures
        stf_inputs(a + b).len() == stf_inputs(a).len() + stf_inputs(b).len(),
    decreases b.len(),
{
    if b.len() == 0 {
        assert(a + b =~= a);
    } else {
        lemma_stf_inputs_concat(a, b.drop_last());
        assert((a + b).drop_last() =~= a + b.drop_last());
        assert((a + b).last() == b.last());
    }
}

/// Every input is either an STF input or a deposit input.
proof fn lemma_inputs_split(inputs: Seq<TzeInput>)
    ensures
        stf_inputs(inputs).len() + deposit_inputs(inputs).len() == inputs.len(),
    decreases inputs.len(),
{
    if inputs.len() > 0 {
        lemma_inputs_split(inputs.drop_last());
    }
}

/// Taking out the input at `i` takes it out of the STF inputs if it is one.
proof fn lemma_stf_inputs_remove(inputs: Seq<TzeInput>, i: int)
    requires
        0 <= i < inputs.len(),
    ensures
        stf_inputs(inputs).len() == stf_inputs(inputs.remove(i)).len() + if inputs[i].witness_mode
            == MODE {
            1int
        } else {
            0int
        },
{
    let a = inputs.subrange(0, i);
    let x = seq![inputs[i]];
    let b = inputs.subrange(i + 1, inputs.len() as int);
    assert(inputs =~= a + (x + b));
    assert(inputs.remove(i) =~= a + b);
    lemma_stf_inputs_concat(a, x + b);
    lemma_stf_inputs_concat(x, b);
    lemma_stf_inputs_concat(a, b);
    assert(x.drop_last() =~= Seq::<TzeInput>::empty());
    assert(stf_inputs(Seq::<TzeInput>::empty()).len() == 0);
    assert(x.last() == inputs[i]);
}

/// Inputs that hold the same inputs, in any order, hold as many STF inputs.
proof fn lemma_stf_inputs_permutation(s1: Seq<TzeInput>, s2: Seq<TzeInput>)
    requires
        s1.to_multiset() == s2.to_multiset(),
    ensures
        s1.len() == s2.len(),
        stf_inputs(s1).len() == stf_inputs(s2).len(),
    decreases s1.len(),
{
    s1.to_multiset_ensures();
    s2.to_multiset_ensures();
    if s1.len() > 0 {
        let x = s1.last();
        let init = s1.drop_last();
        assert(s1 =~= init.push(x));
        init.to_multiset_ensures();
        assert(s1.contains(x)) by {
            assert(s1[s1.len() - 1] == x);
        }
        assert(s1.to_multiset().count(x) > 0);
        assert(s2.to_multiset().count(x) > 0);
        assert(s2.contains(x));
        let i = choose|i: int| 0 <= i < s2.len() && s2[i] == x;
        assert(init.to_multiset() =~= s1.to_multiset().remove(x));
        assert(s2.remove(i).to_multiset() =~= s2.to_multiset().remove(x));
        lemma_stf_inputs_permutation(init, s2.remove(i));
        lemma_stf_inputs_remove(s2, i);
    }
}

/// STF verification does not depend on the order of the TZE inputs: transactions whose TZE
/// inputs are the same inputs in any order, with the same outputs, give the same result.
pub proof fn lemma_stf_verify_ignores_input_order(
    precondition: Precondition,
    witness: WitnessView,
    c1: Context,
    c2: Context,
)
    requires
        c1.tze_inputs@.to_multiset() == c2.tze_inputs@.to_multiset(),
        c1.tze_outputs@ == c2.tze_outputs@,
        c1.transparent_outputs@ == c2.transparent_outputs@,
    ensures
        spec_verify(precondition, witness, c1) == spec_verify(precondition, witness, c2),
{
    lemma_stf_inputs_permutation(c1.tze_inputs@, c2.tze_inputs@);
    lemma_inputs_split(c1.tze_inputs@);
    lemma_inputs_split(c2.tze_inputs@);
}

/// A withdrawal found for `hash` is the last withdrawal to `hash`.
proof fn lemma_withdrawal_for_is_last(withdrawals: Seq<ProcessedWithdrawal>, hash: [u8; 20])
    requires
        withdrawal_for(withdrawals, hash) is Some,
    ensures
        exists|j: int|
            0 <= j < withdrawals.len() && withdrawals[j] == withdrawal_for(withdrawals, hash)->Some_0
                && (#[trigger] withdrawals[j]).pubkey_hash == hash && forall|k: int|
                j < k < withdrawals.len() ==> (#[trigger] withdrawals[k]).pubkey_hash != hash,
    decreases withdrawals.len(),
{
    let n = withdrawals.len() as int;
    if withdrawals.last().pubkey_hash == hash {
        assert(withdrawals[n - 1].pubkey_hash == hash);
    } else {
        let init = withdrawals.drop_last();
        lemma_withdrawal_for_is_last(init, hash);
        let j = choose|j: int|
            0 <= j < init.len() && init[j] == withdrawal_for(init, hash)->Some_0
                && (#[trigger] init[j]).pubkey_hash == hash && forall|k: int|
                j < k < init.len() ==> (#[trigger] init[k]).pubkey_hash != hash;
        assert(withdrawals[j] == init[j]);
        assert forall|k: int| j < k < n implies (#[trigger] withdrawals[k]).pubkey_hash != hash by {
            if k < n - 1 {
                assert(withdrawals[k] == init[k]);
            }
        }
    }
}

/// The withdrawal check accepts whenever every output to a withdrawn public key hash pays
/// exactly the amount of the last withdrawal to that hash, and every withdrawal's hash is
/// paid by some output. Outputs to other hashes, to script hashes, or to no recognised
/// address play no part.
pub proof fn lemma_withdrawals_paid_accepted(
    withdrawals: Seq<ProcessedWithdrawal>,
    outputs: Seq<ResolvedOutput>,
)
    requires
        forall|i: int, j: int|
            #![trigger outputs[i], withdrawals[j]]
            0 <= i < outputs.len() && 0 <= j < withdrawals.len() && outputs[i].recipient == Some(
                TransparentRecipient::PublicKeyHash(withdrawals[j].pubkey_hash),
            ) && (forall|k: int|
                j < k < withdrawals.len() ==> (#[trigger] withdrawals[k]).pubkey_hash
                    != withdrawals[j].pubkey_hash) ==> outputs[i].value == withdrawals[j].amount,
        forall|j: int|
            #![trigger withdrawals[j]]
            0 <= j < withdrawals.len() ==> exists|i: int|
                #![trigger outputs[i]]
                0 <= i < outputs.len() && outputs[i].recipient == Some(
                    TransparentRecipient::PublicKeyHash(withdrawals[j].pubkey_hash),
                ),
    ensures
        spec_check_withdrawals(withdrawals, outputs) == Ok::<(), ErrorModel>(()),
{
    assert forall|i: int| 0 <= i < outputs.len() implies !pays_wrong_amount(
        withdrawals,
        #[trigger] outputs[i],
    ) by {
        if let Some(TransparentRecipient::PublicKeyHash(h)) = outputs[i].recipient {
            if withdrawal_for(withdrawals, h) is Some {
                lemma_withdrawal_for_is_last(withdrawals, h);
                let j = choose|j: int|
                    0 <= j < withdrawals.len() && withdrawals[j] == withdrawal_for(withdrawals, h)->Some_0
                        && (#[trigger] withdrawals[j]).pubkey_hash == h && forall|k: int|
                        j < k < withdrawals.len() ==> (#[trigger] withdrawals[k]).pubkey_hash != h;
                assert(outputs[i].value == withdrawals[j].amount);
            }
        }
    }
    assert forall|j: int| 0 <= j < withdrawals.len() implies is_paid(
        (#[trigger] withdrawals[j]).pubkey_hash,
        outputs,
    ) by {
        let i = choose|i: int|
            0 <= i < outputs.len() && (#[trigger] outputs[i]).recipient == Some(
                TransparentRecipient::PublicKeyHash(withdrawals[j].pubkey_hash),
            );
        assert(outputs[i].recipient == Some(
            TransparentRecipient::PublicKeyHash(withdrawals[j].pubkey_hash),
        ));
    }
}

/// An output that pays to no withdrawn public key hash (a fee or change output) never
/// changes what the withdrawal check gives.
pub proof fn lemma_unrelated_output_ignored(
    withdrawals: Seq<ProcessedWithdrawal>,
    outputs: Seq<ResolvedOutput>,
    output: ResolvedOutput,
)
    requires
        forall|j: int|
            0 <= j < withdrawals.len() ==> output.recipient != Some(
                TransparentRecipient::PublicKeyHash((#[trigger] withdrawals[j]).pubkey_hash),
            ),
    ensures
        spec_check_withdrawals(withdrawals, outputs.push(output)) == spec_check_withdrawals(
            withdrawals,
            outputs,
        ),
{
    let all = outputs.push(output);
    assert(!pays_wrong_amount(withdrawals, output)) by {
        if let Some(TransparentRecipient::PublicKeyHash(h)) = output.recipient {
            if withdrawal_for(withdrawals, h) is Some {
                lemma_withdrawal_for_is_last(withdrawals, h);
                let j = choose|j: int|
                    0 <= j < withdrawals.len() && withdrawals[j] == withdrawal_for(withdrawals, h)->Some_0
                        && (#[trigger] withdrawals[j]).pubkey_hash == h && forall|k: int|
                        j < k < withdrawals.len() ==> (#[trigger] withdrawals[k]).pubkey_hash != h;
                assert(output.recipient != Some(
                    TransparentRecipient::PublicKeyHash(withdrawals[j].pubkey_hash),
                ));
            }
        }
    }
    assert((exists|i: int| 0 <= i < all.len() && pays_wrong_amount(withdrawals, #[trigger] all[i]))
        == (exists|i: int|
        0 <= i < outputs.len() && pays_wrong_amount(withdrawals, #[trigger] outputs[i]))) by {
        if exists|i: int| 0 <= i < all.len() && pays_wrong_amount(withdrawals, #[trigger] all[i]) {
            let i = choose|i: int| 0 <= i < all.len() && pays_wrong_amount(withdrawals, #[trigger] all[i]);
            assert(i < outputs.len());
            assert(all[i] == outputs[i]);
        }
        if exists|i: int|
            0 <= i < outputs.len() && pays_wrong_amount(withdrawals, #[trigger] outputs[i]) {
            let i = choose|i: int|
                0 <= i < outputs.len() && pays_wrong_amount(withdrawals, #[trigger] outputs[i]);
            assert(all[i] == outputs[i]);
        }
    }
    assert forall|j: int| 0 <= j < withdrawals.len() implies is_paid(
        (#[trigger] withdrawals[j]).pubkey_hash,
        all,
    ) == is_paid(withdrawals[j].pubkey_hash, outputs) by {
        let h = withdrawals[j].pubkey_hash;
        if is_paid(h, all) {
            let i = choose|i: int|
                0 <= i < all.len() && (#[trigger] all[i]).recipient == Some(
                    TransparentRecipient::PublicKeyHash(h),
                );
            assert(i < outputs.len());
            assert(all[i] == outputs[i]);
        }
        if is_paid(h, outputs) {
            let i = choose|i: int|
                0 <= i < outputs.len() && (#[trigger] outputs[i]).recipient == Some(
                    TransparentRecipient::PublicKeyHash(h),
                );
            assert(all[i] == outputs[i]);
        }
    }
}

/// Inputs none of which is an STF input hold no STF input.
proof fn lemma_no_stf_inputs(inputs: Seq<TzeInput>)
    requires
        forall|j: int| 0 <= j < inputs.len() ==> (#[trigger] inputs[j]).witness_mode != MODE,
    ensures
        stf_inputs(inputs).len() == 0,
    decreases inputs.len(),
{
    if inputs.len() > 0 {
        let init = inputs.drop_last();
        assert forall|j: int| 0 <= j < init.len() implies (#[trigger] init[j]).witness_mode
            != MODE by {
            assert(init[j] == inputs[j]);
        }
        lemma_no_stf_inputs(init);
    }
}

/// An STF update is accepted whenever its transaction has one TZE input per processed
/// deposit besides a single STF-mode input (anywhere among them), exactly one TZE output
/// that parses as an STF precondition at the witness's new root hash, at least one
/// transparent output per withdrawal, a spent precondition with the witness's root hash
/// and STF identifier, and transparent outputs that pay every withdrawal's hash, each
/// output to a withdrawn hash paying the amount of the last withdrawal to it.
pub proof fn lemma_stf_update_accepts(
    precondition: Precondition,
    witness: WitnessView,
    context: Context,
    k: int,
)
    requires
        context.tze_inputs@.len() == witness.processed_deposits.len() + 1,
        0 <= k < context.tze_inputs@.len(),
        context.tze_inputs@[k].witness_mode == MODE,
        forall|j: int|
            0 <= j < context.tze_inputs@.len() && j != k ==> (
            #[trigger] context.tze_inputs@[j]).witness_mode != MODE,
        context.tze_outputs@.len() == 1,
        context.transparent_outputs@.len() >= witness.processed_withdrawals.len(),
        precondition.root_hash == witness.new_root_hash,
        precondition.stf_identifier == witness.stf_identifier,
        PreconditionEnum::spec_from_payload(
            context.tze_outputs@[0].precondition_mode,
            context.tze_outputs@[0].precondition_payload@,
        ) matches Ok(PreconditionEnum::Stf(p)) && p.root_hash == witness.new_root_hash,
        forall|i: int, j: int|
            #![trigger context.transparent_outputs@[i], witness.processed_withdrawals[j]]
            0 <= i < context.transparent_outputs@.len() && 0 <= j
                < witness.processed_withdrawals.len() && resolve(
                context.transparent_outputs@[i],
            ).recipient == Some(
                TransparentRecipient::PublicKeyHash(witness.processed_withdrawals[j].pubkey_hash),
            ) && (forall|q: int|
                j < q < witness.processed_withdrawals.len() ==> (
                #[trigger] witness.processed_withdrawals[q]).pubkey_hash
                    != witness.processed_withdrawals[j].pubkey_hash)
                ==> context.transparent_outputs@[i].value == witness.processed_withdrawals[j].amount,
        forall|j: int|
            #![trigger witness.processed_withdrawals[j]]
            0 <= j < witness.processed_withdrawals.len() ==> exists|i: int|
                #![trigger context.transparent_outputs@[i]]
                0 <= i < context.transparent_outputs@.len() && resolve(
                    context.transparent_outputs@[i],
                ).recipient == Some(
                    TransparentRecipient::PublicKeyHash(
                        witness.processed_withdrawals[j].pubkey_hash,
                    ),
                ),
    ensures
        spec_verify(precondition, witness, context) == Ok::<(), ErrorModel>(()),
{
    let inputs = context.tze_inputs@;
    let rest = inputs.remove(k);
    assert forall|j: int| 0 <= j < rest.len() implies (#[trigger] rest[j]).witness_mode
        != MODE by {
        if j < k {
            assert(rest[j] == inputs[j]);
        } else {
            assert(rest[j] == inputs[j + 1]);
        }
    }
    lemma_no_stf_inputs(rest);
    lemma_stf_inputs_remove(inputs, k);
    lemma_inputs_split(inputs);
    let ws = witness.processed_withdrawals;
    let touts = context.transparent_outputs@;
    let rs = touts.map_values(|o: TransparentOutput| resolve(o));
    assert forall|i: int| 0 <= i < rs.len() implies !pays_wrong_amount(ws, #[trigger] rs[i]) by {
        assert(rs[i] == resolve(touts[i]));
        if let Some(TransparentRecipient::PublicKeyHash(h)) = rs[i].recipient {
            if withdrawal_for(ws, h) is Some {
                lemma_withdrawal_for_is_last(ws, h);
                let j = choose|j: int|
                    0 <= j < ws.len() && ws[j] == withdrawal_for(ws, h)->Some_0
                        && (#[trigger] ws[j]).pubkey_hash == h && forall|k: int|
                        j < k < ws.len() ==> (#[trigger] ws[k]).pubkey_hash != h;
                assert(touts[i].value == ws[j].amount);
            }
        }
    }
    assert forall|j: int| 0 <= j < ws.len() implies is_paid((#[trigger] ws[j]).pubkey_hash, rs) by {
        let i = choose|i: int|
            #![trigger touts[i]]
            0 <= i < touts.len() && resolve(touts[i]).recipient == Some(
                TransparentRecipient::PublicKeyHash(ws[j].pubkey_hash),
            );
        assert(rs[i] == resolve(touts[i]));
        assert(rs[i].recipient == Some(TransparentRecipient::PublicKeyHash(ws[j].pubkey_hash)));
    }
}

/// The last withdrawal to a hash is the withdrawal found for that hash.
proof fn lemma_withdrawal_for_last(withdrawals: Seq<ProcessedWithdrawal>, j: int)
    requires
        0 <= j < withdrawals.len(),
        forall|k: int|
            j < k < withdrawals.len() ==> (#[trigger] withdrawals[k]).pubkey_hash
                != withdrawals[j].pubkey_hash,
    ensures
        withdrawal_for(withdrawals, withdrawals[j].pubkey_hash) == Some(withdrawals[j]),
    decreases withdrawals.len(),
{
    let n = withdrawals.len() as int;
    if j < n - 1 {
        let init = withdrawals.drop_last();
        assert(withdrawals[n - 1].pubkey_hash != withdrawals[j].pubkey_hash);
        assert forall|k: int| j < k < init.len() implies (#[trigger] init[k]).pubkey_hash
            != init[j].pubkey_hash by {
            assert(init[k] == withdrawals[k]);
        }
        lemma_withdrawal_for_last(init, j);
    }
}

/// What an accepted withdrawal check guarantees: every withdrawal's public key hash is paid
/// by some output, and every output to a withdrawn hash pays exactly the amount of the last
/// withdrawal to that hash.
pub proof fn lemma_withdrawals_check_sound(
    withdrawals: Seq<ProcessedWithdrawal>,
    outputs: Seq<ResolvedOutput>,
)
    requires
        spec_check_withdrawals(withdrawals, outputs) is Ok,
    ensures
        forall|j: int|
            #![trigger withdrawals[j]]
            0 <= j < withdrawals.len() ==> exists|i: int|
                #![trigger outputs[i]]
                0 <= i < outputs.len() && outputs[i].recipient == Some(
                    TransparentRecipient::PublicKeyHash(withdrawals[j].pubkey_hash),
                ),
        forall|i: int, j: int|
            #![trigger outputs[i], withdrawals[j]]
            0 <= i < outputs.len() && 0 <= j < withdrawals.len() && outputs[i].recipient == Some(
                TransparentRecipient::PublicKeyHash(withdrawals[j].pubkey_hash),
            ) && (forall|k: int|
                j < k < withdrawals.len() ==> (#[trigger] withdrawals[k]).pubkey_hash
                    != withdrawals[j].pubkey_hash) ==> outputs[i].value == withdrawals[j].amount,
{
    assert forall|j: int| #![trigger withdrawals[j]] 0 <= j < withdrawals.len() implies exists|i: int|
        #![trigger outputs[i]]
        0 <= i < outputs.len() && outputs[i].recipient == Some(
            TransparentRecipient::PublicKeyHash(withdrawals[j].pubkey_hash),
        ) by {
        assert(is_paid(withdrawals[j].pubkey_hash, outputs));
    }
    assert forall|i: int, j: int|
        #![trigger outputs[i], withdrawals[j]]
        0 <= i < outputs.len() && 0 <= j < withdrawals.len() && outputs[i].recipient == Some(
            TransparentRecipient::PublicKeyHash(withdrawals[j].pubkey_hash),
        ) && (forall|k: int|
            j < k < withdrawals.len() ==> (#[trigger] withdrawals[k]).pubkey_hash
                != withdrawals[j].pubkey_hash) implies outputs[i].value == withdrawals[j].amount by {
        lemma_withdrawal_for_last(withdrawals, j);
        assert(!pays_wrong_amount(withdrawals, outputs[i]));
    }
}

/// The withdrawal check refuses an output to a withdrawn public key hash that pays another
/// amount than the last withdrawal to that hash, and otherwise a withdrawal whose hash no
/// output pays.
pub proof fn lemma_withdrawals_check_rejects(
    withdrawals: Seq<ProcessedWithdrawal>,
    outputs: Seq<ResolvedOutput>,
)
    ensures
        (exists|i: int, j: int|
            #![trigger outputs[i], withdrawals[j]]
            0 <= i < outputs.len() && 0 <= j < withdrawals.len() && outputs[i].recipient == Some(
                TransparentRecipient::PublicKeyHash(withdrawals[j].pubkey_hash),
            ) && (forall|k: int|
                j < k < withdrawals.len() ==> (#[trigger] withdrawals[k]).pubkey_hash
                    != withdrawals[j].pubkey_hash) && outputs[i].value != withdrawals[j].amount)
            ==> spec_check_withdrawals(withdrawals, outputs) == Err::<(), ErrorModel>(
            ErrorModel::InvalidStfUpdate(
                "Transparent output value does not match withdrawal amount"@,
            ),
        ),
        (forall|i: int, j: int|
            #![trigger outputs[i], withdrawals[j]]
            0 <= i < outputs.len() && 0 <= j < withdrawals.len() && outputs[i].recipient == Some(
                TransparentRecipient::PublicKeyHash(withdrawals[j].pubkey_hash),
            ) && (forall|k: int|
                j < k < withdrawals.len() ==> (#[trigger] withdrawals[k]).pubkey_hash
                    != withdrawals[j].pubkey_hash) ==> outputs[i].value == withdrawals[j].amount)
            && (exists|j: int|
            #![trigger withdrawals[j]]
            0 <= j < withdrawals.len() && forall|i: int|
                #![trigger outputs[i]]
                0 <= i < outputs.len() ==> outputs[i].recipient != Some(
                    TransparentRecipient::PublicKeyHash(withdrawals[j].pubkey_hash),
                )) ==> spec_check_withdrawals(withdrawals, outputs) == Err::<(), ErrorModel>(
            ErrorModel::InvalidStfUpdate(
                "Some withdrawals were not covered by transparent outputs"@,
            ),
        ),
{
    if exists|i: int, j: int|
        #![trigger outputs[i], withdrawals[j]]
        0 <= i < outputs.len() && 0 <= j < withdrawals.len() && outputs[i].recipient == Some(
            TransparentRecipient::PublicKeyHash(withdrawals[j].pubkey_hash),
        ) && (forall|k: int|
            j < k < withdrawals.len() ==> (#[trigger] withdrawals[k]).pubkey_hash
                != withdrawals[j].pubkey_hash) && outputs[i].value != withdrawals[j].amount {
        let (i, j) = choose|i: int, j: int|
            #![trigger outputs[i], withdrawals[j]]
            0 <= i < outputs.len() && 0 <= j < withdrawals.len() && outputs[i].recipient == Some(
                TransparentRecipient::PublicKeyHash(withdrawals[j].pubkey_hash),
            ) && (forall|k: int|
                j < k < withdrawals.len() ==> (#[trigger] withdrawals[k]).pubkey_hash
                    != withdrawals[j].pubkey_hash) && outputs[i].value != withdrawals[j].amount;
        lemma_withdrawal_for_last(withdrawals, j);
        assert(pays_wrong_amount(withdrawals, outputs[i]));
    }
    if (forall|i: int, j: int|
        #![trigger outputs[i], withdrawals[j]]
        0 <= i < outputs.len() && 0 <= j < withdrawals.len() && outputs[i].recipient == Some(
            TransparentRecipient::PublicKeyHash(withdrawals[j].pubkey_hash),
        ) && (forall|k: int|
            j < k < withdrawals.len() ==> (#[trigger] withdrawals[k]).pubkey_hash
                != withdrawals[j].pubkey_hash) ==> outputs[i].value == withdrawals[j].amount) && (
    exists|j: int|
        #![trigger withdrawals[j]]
        0 <= j < withdrawals.len() && forall|i: int|
            #![trigger outputs[i]]
            0 <= i < outputs.len() ==> outputs[i].recipient != Some(
                TransparentRecipient::PublicKeyHash(withdrawals[j].pubkey_hash),
            )) {
        assert forall|i: int| 0 <= i < outputs.len() implies !pays_wrong_amount(
            withdrawals,
            #[trigger] outputs[i],
        ) by {
            if let Some(TransparentRecipient::PublicKeyHash(h)) = outputs[i].recipient {
                if withdrawal_for(withdrawals, h) is Some {
                    lemma_withdrawal_for_is_last(withdrawals, h);
                    let j = choose|j: int|
                        0 <= j < withdrawals.len() && withdrawals[j] == withdrawal_for(withdrawals, h)->Some_0
                            && (#[trigger] withdrawals[j]).pubkey_hash == h && forall|k: int|
                            j < k < withdrawals.len() ==> (#[trigger] withdrawals[k]).pubkey_hash != h;
                    assert(outputs[i].value == withdrawals[j].amount);
                }
            }
        }
        let j = choose|j: int|
            #![trigger withdrawals[j]]
            0 <= j < withdrawals.len() && forall|i: int|
                #![trigger outputs[i]]
                0 <= i < outputs.len() ==> outputs[i].recipient != Some(
                    TransparentRecipient::PublicKeyHash(withdrawals[j].pubkey_hash),
                );
        assert(!is_paid(withdrawals[j].pubkey_hash, outputs));
    }
}

/// Inputs among which exactly one is an STF input: that one, and only it.
proof fn lemma_stf_inputs_single(inputs: Seq<TzeInput>)
    requires
        stf_inputs(inputs).len() == 1,
    ensures
        exists|k: int|
            0 <= k < inputs.len() && (#[trigger] inputs[k]).witness_mode == MODE && forall|j: int|
                0 <= j < inputs.len() && j != k ==> (#[trigger] inputs[j]).witness_mode != MODE,
    decreases inputs.len(),
{
    let init = inputs.drop_last();
    let n = inputs.len() as int;
    if inputs.last().witness_mode == MODE {
        lemma_inputs_split(init);
        lemma_deposit_inputs_all(init);
        assert forall|j: int| 0 <= j < n && j != n - 1 implies (#[trigger] inputs[j]).witness_mode
            != MODE by {
            assert(inputs[j] == init[j]);
        }
        assert(inputs[n - 1] == inputs.last());
    } else {
        lemma_stf_inputs_single(init);
        let k = choose|k: int|
            0 <= k < init.len() && (#[trigger] init[k]).witness_mode == MODE && forall|j: int|
                0 <= j < init.len() && j != k ==> (#[trigger] init[j]).witness_mode != MODE;
        assert(inputs[k] == init[k]);
        assert forall|j: int| 0 <= j < n && j != k implies (#[trigger] inputs[j]).witness_mode
            != MODE by {
            if j < n - 1 {
                assert(inputs[j] == init[j]);
            }
        }
    }
}

/// Inputs that hold no STF input are all deposit inputs.
proof fn lemma_deposit_inputs_all(inputs: Seq<TzeInput>)
    requires
        stf_inputs(inputs).len() == 0,
    ensures
        forall|j: int| 0 <= j < inputs.len() ==> (#[trigger] inputs[j]).witness_mode != MODE,
    decreases inputs.len(),
{
    if inputs.len() > 0 {
        let init = inputs.drop_last();
        lemma_deposit_inputs_all(init);
        assert forall|j: int| 0 <= j < inputs.len() implies (#[trigger] inputs[j]).witness_mode
            != MODE by {
            if j < inputs.len() - 1 {
                assert(inputs[j] == init[j]);
            }
        }
    }
}

/// An accepted STF update spends exactly one STF-mode input, at some position among its TZE
/// inputs, and all its other TZE inputs are deposits.
pub proof fn lemma_stf_update_accepted_inputs(
    precondition: Precondition,
    witness: WitnessView,
    context: Context,
)
    requires
        spec_verify(precondition, witness, context) is Ok,
    ensures
        exists|k: int|
            0 <= k < context.tze_inputs@.len() && (#[trigger] context.tze_inputs@[k]).witness_mode
                == MODE && forall|j: int|
                0 <= j < context.tze_inputs@.len() && j != k ==> (
                #[trigger] context.tze_inputs@[j]).witness_mode != MODE,
{
    lemma_stf_inputs_single(context.tze_inputs@);
}

/// The STF rules refuse, each check in turn with its own error: a number of TZE inputs
/// other than the number of deposits plus one; a number of TZE outputs other than one;
/// fewer transparent outputs than withdrawals; a spent precondition at another root hash,
/// or for another STF; no STF-mode input, or more than one; and an output precondition
/// that is not an STF one, or is at another root hash than the witness's.
pub proof fn lemma_stf_update_rejects(
    precondition: Precondition,
    witness: WitnessView,
    context: Context,
)
    ensures
        ({
            let inputs = context.tze_inputs@;
            let outputs = context.tze_outputs@;
            let n_deposits = witness.processed_deposits.len();
            let n_withdrawals = witness.processed_withdrawals.len();
            let r = spec_verify(precondition, witness, context);
            let counts_ok = inputs.len() == n_deposits + 1 && outputs.len() == 1
                && context.transparent_outputs@.len() >= n_withdrawals;
            let hashes_ok = counts_ok && precondition.root_hash == witness.new_root_hash
                && precondition.stf_identifier == witness.stf_identifier;
            &&& inputs.len() != n_deposits + 1 ==> r == Err::<(), ErrorModel>(
                ErrorModel::IncorrectTzeInputsAmount {
                    expected: (n_deposits + 1) as usize,
                    provided: inputs.len() as usize,
                },
            )
            &&& inputs.len() == n_deposits + 1 && outputs.len() != 1 ==> r == Err::<(), ErrorModel>(
                ErrorModel::IncorrectTzeOutputsAmount {
                    expected: 1,
                    provided: outputs.len() as usize,
                },
            )
            &&& inputs.len() == n_deposits + 1 && outputs.len() == 1
                && context.transparent_outputs@.len() < n_withdrawals ==> r == Err::<(), ErrorModel>(
                ErrorModel::IncorrectTransparentOutputsAmount {
                    expected: n_withdrawals as usize,
                    provided: context.transparent_outputs@.len() as usize,
                },
            )
            &&& counts_ok && precondition.root_hash != witness.new_root_hash ==> r == Err::<
                (),
                ErrorModel,
            >(ErrorModel::InvalidStfUpdate("Root hash mismatch"@))
            &&& counts_ok && precondition.root_hash == witness.new_root_hash
                && precondition.stf_identifier != witness.stf_identifier ==> r == Err::<
                (),
                ErrorModel,
            >(ErrorModel::InvalidStfUpdate("STF identifier mismatch"@))
            &&& hashes_ok && (forall|j: int|
                0 <= j < inputs.len() ==> (#[trigger] inputs[j]).witness_mode != MODE) ==> r
                == Err::<(), ErrorModel>(
                ErrorModel::InvalidStfUpdate("Incorrect number of STF or deposit inputs"@),
            )
            &&& forall|k1: int, k2: int|
                hashes_ok && 0 <= k1 < k2 < inputs.len() && (#[trigger] inputs[k1]).witness_mode
                    == MODE && (#[trigger] inputs[k2]).witness_mode == MODE ==> r == Err::<
                    (),
                    ErrorModel,
                >(ErrorModel::InvalidStfUpdate("Incorrect number of STF or deposit inputs"@))
            &&& forall|k: int|
                hashes_ok && 0 <= k < inputs.len() && (#[trigger] inputs[k]).witness_mode == MODE
                    && (forall|j: int|
                    0 <= j < inputs.len() && j != k ==> (#[trigger] inputs[j]).witness_mode
                        != MODE) ==> match PreconditionEnum::spec_from_payload(
                    outputs[0].precondition_mode,
                    outputs[0].precondition_payload@,
                ) {
                    Ok(PreconditionEnum::Stf(p)) => p.root_hash != witness.new_root_hash ==> r
                        == Err::<(), ErrorModel>(ErrorModel::InvalidStfUpdate("Root hash mismatch"@)),
                    _ => r == Err::<(), ErrorModel>(ErrorModel::UnexpectedOutputPrecondition),
                }
        }),
{
    let inputs = context.tze_inputs@;
    lemma_inputs_split(inputs);
    if forall|j: int| 0 <= j < inputs.len() ==> (#[trigger] inputs[j]).witness_mode != MODE {
        lemma_no_stf_inputs(inputs);
    }
    assert forall|k1: int, k2: int|
        0 <= k1 < k2 < inputs.len() && (#[trigger] inputs[k1]).witness_mode == MODE && (
        #[trigger] inputs[k2]).witness_mode == MODE implies stf_inputs(inputs).len() != 1 by {
        if stf_inputs(inputs).len() == 1 {
            lemma_stf_inputs_single(inputs);
        }
    }
    assert forall|k: int|
        0 <= k < inputs.len() && (#[trigger] inputs[k]).witness_mode == MODE && (forall|j: int|
            0 <= j < inputs.len() && j != k ==> (#[trigger] inputs[j]).witness_mode != MODE)
            implies stf_inputs(inputs).len() == 1 by {
        let rest = inputs.remove(k);
        assert forall|j: int| 0 <= j < rest.len() implies (#[trigger] rest[j]).witness_mode
            != MODE by {
            if j < k {
                assert(rest[j] == inputs[j]);
            } else {
                assert(rest[j] == inputs[j + 1]);
            }
        }
        lemma_no_stf_inputs(rest);
        lemma_stf_inputs_remove(inputs, k);
    }
}

} // verus!
