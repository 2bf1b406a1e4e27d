//! Recipients of transparent outputs, read from their `script_pubkey` by `zcash_transparent`.
use vstd::prelude::*;
use zcash_protocol::value::Zatoshis;
use zcash_script::script::Code;
use zcash_transparent::address::{Script, TransparentAddress};
use zcash_transparent::bundle::TxOut;

verus! {

/// A transparent address: the hash of a public key (P2PKH) or of a script (P2SH).
#[derive(Clone, Copy, Debug, PartialEq, Eq)]
pub enum TransparentRecipient {
    PublicKeyHash([u8; 20]),
    ScriptHash([u8; 20]),
}

/// The recipient that `zcash_transparent` reads from a transparent output whose
/// `script_pubkey` holds the bytes `script`, if it is a standard P2PKH or P2SH script.
pub uninterp spec fn script_recipient(script: Seq<u8>) -> Option<TransparentRecipient>;

/// Calls `zcash_transparent::bundle::TxOut::recipient_address` on an output whose
/// `script_pubkey` holds `script_pubkey` (the output's value plays no part in it), and
/// hands the address back as a [`TransparentRecipient`]. The contract only names the
/// result: which scripts are standard is left to `zcash_script`'s solver.
#[verifier::external_body]
pub(crate) fn recipient_address(script_pubkey: &[u8]) -> (r: Option<TransparentRecipient>)
    ensures
        r == script_recipient(script_pubkey@),
{
    let out = TxOut::new(Zatoshis::ZERO, Script(Code(script_pubkey.to_vec())));
    match out.recipient_address() {
        Some(TransparentAddress::PublicKeyHash(h)) => Some(TransparentRecipient::PublicKeyHash(h)),
        Some(TransparentAddress::ScriptHash(h)) => Some(TransparentRecipient::ScriptHash(h)),
        None => None,
    }
}

} // verus!
