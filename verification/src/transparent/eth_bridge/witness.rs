//! The witness type of the `eth_bridge` extension, over all of its modes.
use vstd::prelude::*;

use crate::transparent::eth_bridge::error::Error;
use crate::transparent::eth_bridge::modes::{create, deposit, stf};

verus! {

/// The witness type for the `eth_bridge` extension.
#[derive(Debug, PartialEq, Eq)]
pub enum Witness {
    Create(create::Witness),
    Deposit(deposit::Witness),
    Stf(stf::Witness),
}

/// The value of a [`Witness`].
pub enum WitnessView {
    Create,
    Deposit,
    Stf(stf::WitnessView),
}

impl View for Witness {
    type V = WitnessView;

    open spec fn view(&self) -> WitnessView {
        match self {
            Witness::Create(_) => WitnessView::Create,
            Witness::Deposit(_) => WitnessView::Deposit,
            Witness::Stf(w) => WitnessView::Stf(w@),
        }
    }
}

impl WitnessView {
    /// The mode number of the mode that `self` belongs to.
    pub open spec fn spec_mode(self) -> u32 {
        match self {
            WitnessView::Create => create::MODE,
            WitnessView::Deposit => deposit::MODE,
            WitnessView::Stf(_) => stf::MODE,
        }
    }

    /// The payload of `self`, as its mode encodes it.
    pub open spec fn spec_payload(self) -> Seq<u8> {
        match self {
            WitnessView::Create => Seq::empty(),
            WitnessView::Deposit => Seq::empty(),
            WitnessView::Stf(w) => w.spec_payload(),
        }
    }

    /// Whether the payload of `self` parses back (see [`stf::WitnessView::is_encodable`]).
    pub open spec fn is_encodable(self) -> bool {
        match self {
            WitnessView::Stf(w) => w.is_encodable(),
            _ => true,
        }
    }
}

impl Witness {
    pub fn create() -> (w: Self)
        ensures
            w@ == WitnessView::Create,
    {
        Self::Create(create::Witness)
    }

    pub fn deposit() -> (w: Self)
        ensures
            w@ == WitnessView::Deposit,
    {
        Self::Deposit(deposit::Witness)
    }

    /// The witness of mode `mode` that `payload` encodes. An unknown mode is refused with
    /// `ModeInvalid`; a payload that the mode does not accept (for the STF mode, also one
    /// with an amount above `MAX_MONEY`) is refused with `IllegalPayloadLength` of the
    /// payload's length.
    pub open spec fn spec_from_payload(mode: u32, payload: Seq<u8>) -> Result<WitnessView, Error> {
        if mode == create::MODE {
            match create::Witness::spec_from_bytes(payload) {
                Ok(_) => Ok(WitnessView::Create),
                Err(_) => Err(Error::IllegalPayloadLength(payload.len() as usize)),
            }
        } else if mode == stf::MODE {
            match stf::Witness::spec_from_bytes(payload) {
                Ok(w) => Ok(WitnessView::Stf(w)),
                Err(_) => Err(Error::IllegalPayloadLength(payload.len() as usize)),
            }
        } else if mode == deposit::MODE {
            match deposit::Witness::spec_from_bytes(payload) {
                Ok(_) => Ok(WitnessView::Deposit),
                Err(_) => Err(Error::IllegalPayloadLength(payload.len() as usize)),
            }
        } else {
            Err(Error::ModeInvalid(mode))
        }
    }

    /// Accepts `from.1` when `from.0` is the mode number of its mode.
    pub fn try_from_mode(from: (u32, Self)) -> (res: Result<Self, Error>)
        ensures
            from.0 == from.1@.spec_mode() ==> res is Ok && res->Ok_0@ == from.1@,
            from.0 != from.1@.spec_mode() ==> res == Err::<Self, Error>(
                Error::ModeInvalid(from.0),
            ),
    {
        let (mode, w) = from;
        match w {
            Witness::Create(w) if mode == create::MODE => Ok(Witness::Create(w)),
            Witness::Stf(w) if mode == stf::MODE => Ok(Witness::Stf(w)),
            Witness::Deposit(w) if mode == deposit::MODE => Ok(Witness::Deposit(w)),
            _ => Err(Error::ModeInvalid(mode)),
        }
    }

    /// Parses the payload of a witness of mode `mode`.
    pub fn from_payload(mode: u32, payload: &[u8]) -> (res: Result<Self, Error>)
        ensures
            match res {
                Ok(w) => Self::spec_from_payload(mode, payload@) == Ok::<WitnessView, Error>(w@),
                Err(e) => Self::spec_from_payload(mode, payload@) == Err::<WitnessView, Error>(e),
            },
    {
        if mode == create::MODE {
            match create::Witness::from_bytes(payload) {
                Ok(w) => Ok(Witness::Create(w)),
                Err(_) => Err(Error::IllegalPayloadLength(payload.len())),
            }
        } else if mode == stf::MODE {
            match stf::Witness::from_bytes(payload) {
                Ok(w) => Ok(Witness::Stf(w)),
                Err(_) => Err(Error::IllegalPayloadLength(payload.len())),
            }
        } else if mode == deposit::MODE {
            match deposit::Witness::from_bytes(payload) {
                Ok(w) => Ok(Witness::Deposit(w)),
                Err(_) => Err(Error::IllegalPayloadLength(payload.len())),
            }
        } else {
            Err(Error::ModeInvalid(mode))
        }
    }

    /// The mode number and payload of `self`.
    pub fn to_payload(&self) -> (res: (u32, Vec<u8>))
        ensures
            res.0 == self@.spec_mode(),
            res.1@ == self@.spec_payload(),
    {
        match self {
            Witness::Create(w) => (create::MODE, w.to_payload()),
            Witness::Stf(w) => (stf::MODE, w.to_payload()),
            Witness::Deposit(w) => (deposit::MODE, w.to_payload()),
        }
    }
}

/// Parsing the mode and payload of an encodable witness gives the witness back.
pub proof fn lemma_witness_payload_roundtrip(w: WitnessView)
    requires
        w.is_encodable(),
    ensures
        Witness::spec_from_payload(w.spec_mode(), w.spec_payload()) == Ok::<WitnessView, Error>(w),
{
    if let WitnessView::Stf(s) = w {
        stf::lemma_witness_payload_roundtrip(s);
    }
}

/// A mode and payload that parse are the mode and payload of what they parse to.
pub proof fn lemma_witness_payload_canonical(mode: u32, payload: Seq<u8>)
    requires
        Witness::spec_from_payload(mode, payload) is Ok,
    ensures
        Witness::spec_from_payload(mode, payload)->Ok_0.spec_mode() == mode,
        Witness::spec_from_payload(mode, payload)->Ok_0.spec_payload() == payload,
{
    if mode == stf::MODE {
        stf::lemma_witness_payload_canonical(payload);
    } else {
        assert(payload =~= Seq::<u8>::empty());
    }
}

/// A mode number other than those of the three modes is refused, whatever the payload.
pub proof fn lemma_witness_unknown_mode(mode: u32, payload: Seq<u8>)
    requires
        mode != create::MODE,
        mode != stf::MODE,
        mode != deposit::MODE,
    ensures
        Witness::spec_from_payload(mode, payload) == Err::<WitnessView, Error>(
            Error::ModeInvalid(mode),
        ),
{
}

} // verus!
