//! The precondition type of the `eth_bridge` extension, over all of its modes.
use vstd::prelude::*;

use crate::transparent::eth_bridge::error::Error;
use crate::transparent::eth_bridge::modes::{create, deposit, stf};

verus! {

/// The precondition type for the eth_bridge extension.
#[derive(Debug, PartialEq, Eq)]
pub enum Precondition {
    Create(create::Precondition),
    Stf(stf::Precondition),
    Deposit(deposit::Precondition),
}

impl Precondition {
    pub fn create(stf_identifier: [u8; 32], root_hash: [u8; 32]) -> (p: Self)
        ensures
            p == (Precondition::Create(create::Precondition { stf_identifier, root_hash })),
    {
        Self::Create(create::Precondition::new(stf_identifier, root_hash))
    }

    pub fn deposit(stf_identifier: [u8; 32], to: [u8; 20]) -> (p: Self)
        ensures
            p == (Precondition::Deposit(deposit::Precondition { stf_identifier, to })),
    {
        Self::Deposit(deposit::Precondition::new(stf_identifier, to))
    }

    pub fn stf(stf_identifier: [u8; 32], root_hash: [u8; 32]) -> (p: Self)
        ensures
            p == (Precondition::Stf(stf::Precondition { root_hash, stf_identifier })),
    {
        Self::Stf(stf::Precondition::new(stf_identifier, root_hash))
    }

    /// The mode number of the mode that `self` belongs to.
    pub open spec fn spec_mode(self) -> u32 {
        match self {
            Precondition::Create(_) => create::MODE,
            Precondition::Stf(_) => stf::MODE,
            Precondition::Deposit(_) => deposit::MODE,
        }
    }

    /// The payload of `self`, as its mode encodes it.
    pub open spec fn spec_payload(self) -> Seq<u8> {
        match self {
            Precondition::Create(p) => p.spec_payload(),
            Precondition::Stf(p) => p.spec_payload(),
            Precondition::Deposit(p) => p.spec_payload(),
        }
    }

    /// The precondition of mode `mode` that `payload` encodes. An unknown mode is
    /// refused with `ModeInvalid`; a payload that the mode does not accept is refused
    /// with `IllegalPayloadLength` of the payload's length.
    pub open spec fn spec_from_payload(mode: u32, payload: Seq<u8>) -> Result<Self, Error> {
        if mode == create::MODE {
            match create::Precondition::spec_from_bytes(payload) {
                Ok(p) => Ok(Precondition::Create(p)),
                Err(_) => Err(Error::IllegalPayloadLength(payload.len() as usize)),
            }
        } else if mode == stf::MODE {
            match stf::Precondition::spec_from_bytes(payload) {
                Ok(p) => Ok(Precondition::Stf(p)),
                Err(_) => Err(Error::IllegalPayloadLength(payload.len() as usize)),
            }
        } else if mode == deposit::MODE {
            match deposit::Precondition::spec_from_bytes(payload) {
                Ok(p) => Ok(Precondition::Deposit(p)),
                Err(_) => Err(Error::IllegalPayloadLength(payload.len() as usize)),
            }
        } else {
            Err(Error::ModeInvalid(mode))
        }
    }

    /// Accepts `from.1` when `from.0` is the mode number of its mode.
    pub fn try_from_mode(from: (u32, Self)) -> (res: Result<Self, Error>)
        ensures
            from.0 == from.1.spec_mode() ==> res == Ok::<Self, Error>(from.1),
            from.0 != from.1.spec_mode() ==> res == Err::<Self, Error>(Error::ModeInvalid(from.0)),
    {
        let (mode, p) = from;
        match p {
            Precondition::Create(p) if mode == create::MODE => Ok(Precondition::Create(p)),
            Precondition::Stf(p) if mode == stf::MODE => Ok(Precondition::Stf(p)),
            Precondition::Deposit(p) if mode == deposit::MODE => Ok(Precondition::Deposit(p)),
            _ => Err(Error::ModeInvalid(mode)),
        }
    }

    /// Parses the payload of a precondition of mode `mode`.
    pub fn from_payload(mode: u32, payload: &[u8]) -> (res: Result<Self, Error>)
        ensures
            res == Self::spec_from_payload(mode, payload@),
    {
        if mode == create::MODE {
            match create::Precondition::from_bytes(payload) {
                Ok(p) => Ok(Precondition::Create(p)),
                Err(_) => Err(Error::IllegalPayloadLength(payload.len())),
            }
        } else if mode == stf::MODE {
            match stf::Precondition::from_bytes(payload) {
                Ok(p) => Ok(Precondition::Stf(p)),
                Err(_) => Err(Error::IllegalPayloadLength(payload.len())),
            }
        } else if mode == deposit::MODE {
            match deposit::Precondition::from_bytes(payload) {
                Ok(p) => Ok(Precondition::Deposit(p)),
                Err(_) => Err(Error::IllegalPayloadLength(payload.len())),
            }
        } else {
            Err(Error::ModeInvalid(mode))
        }
    }

    /// The mode number and payload of `self`.
    pub fn to_payload(&self) -> (res: (u32, Vec<u8>))
        ensures
            res.0 == self.spec_mode(),
            res.1@ == self.spec_payload(),
    {
        match self {
            Precondition::Create(p) => (create::MODE, p.to_payload()),
            Precondition::Stf(p) => (stf::MODE, p.to_payload()),
            Precondition::Deposit(p) => (deposit::MODE, p.to_payload()),
        }
    }
}

/// Parsing the mode and payload of a precondition gives the precondition back.
pub proof fn lemma_precondition_payload_roundtrip(p: Precondition)
    ensures
        Precondition::spec_from_payload(p.spec_mode(), p.spec_payload()) == Ok::<
            Precondition,
            Error,
        >(p),
{
    match p {
        Precondition::Create(c) => c.lemma_payload_roundtrip(),
        Precondition::Stf(s) => s.lemma_payload_roundtrip(),
        Precondition::Deposit(d) => d.lemma_payload_roundtrip(),
    }
}

/// A mode and payload that parse are the mode and payload of what they parse to.
pub proof fn lemma_precondition_payload_canonical(mode: u32, payload: Seq<u8>)
    requires
        Precondition::spec_from_payload(mode, payload) is Ok,
    ensures
        Precondition::spec_from_payload(mode, payload)->Ok_0.spec_mode() == mode,
        Precondition::spec_from_payload(mode, payload)->Ok_0.spec_payload() == payload,
{
    if mode == create::MODE {
        create::Precondition::lemma_payload_canonical(payload);
    } else if mode == stf::MODE {
        stf::Precondition::lemma_payload_canonical(payload);
    } else {
        deposit::Precondition::lemma_payload_canonical(payload);
    }
}

/// A mode number other than those of the three modes is refused, whatever the payload.
pub proof fn lemma_precondition_unknown_mode(mode: u32, payload: Seq<u8>)
    requires
        mode != create::MODE,
        mode != stf::MODE,
        mode != deposit::MODE,
    ensures
        Precondition::spec_from_payload(mode, payload) == Err::<Precondition, Error>(
            Error::ModeInvalid(mode),
        ),
{
}

} // verus!
