//! Errors produced while parsing and verifying `eth_bridge` preconditions and witnesses.
use vstd::prelude::*;
use vstd::string::StringExecFns;

verus! {

/// Errors that may be produced during parsing and verification of `eth_bridge`
/// preconditions and witnesses.
#[derive(Debug, PartialEq, Eq)]
pub enum Error {
    /// Parse error indicating that the payload of the condition or the witness was
    /// not correct.
    IllegalPayloadLength(usize),
    /// Verification error indicating that the specified mode was not recognized by
    /// the extension.
    ModeInvalid(u32),
    /// Verification error indicating that the transaction provided in the verification
    /// context was missing required TZE inputs or outputs.
    NonTzeTxn,
    /// Verification error indicating that the mode requested by the witness value did not
    /// conform to that of the precondition under inspection.
    ModeMismatch,
    /// Verification error indicating that the transaction didn't expect to have non-TZE bundles.
    NonTzeBundle,
    /// Verification error indicating that the transaction provided in the verification
    /// context had incorrect amount of TZE inputs.
    IncorrectTzeInputsAmount { expected: usize, provided: usize },
    /// Verification error indicating that the transaction provided in the verification
    /// context had incorrect amount of TZE outputs.
    IncorrectTzeOutputsAmount { expected: usize, provided: usize },
    /// Verification error indicating that the transaction provided in the verification
    /// context had incorrect amount of transparent outputs.
    IncorrectTransparentOutputsAmount { expected: usize, provided: usize },
    /// Verification error indicating that the output TZE has unexpected precondition.
    UnexpectedOutputPrecondition,
    /// Verification error indicating that the input TZE has unexpected witness.
    UnexpectedInputWitness,
    /// Verification error indicating that STF properties were not met.
    InvalidStfUpdate(String),
}

/// An [`Error`] as a mathematical value: the message of `InvalidStfUpdate` is its characters.
pub enum ErrorModel {
    IllegalPayloadLength(usize),
    ModeInvalid(u32),
    NonTzeTxn,
    ModeMismatch,
    NonTzeBundle,
    IncorrectTzeInputsAmount { expected: usize, provided: usize },
    IncorrectTzeOutputsAmount { expected: usize, provided: usize },
    IncorrectTransparentOutputsAmount { expected: usize, provided: usize },
    UnexpectedOutputPrecondition,
    UnexpectedInputWitness,
    InvalidStfUpdate(Seq<char>),
}

impl View for Error {
    type V = ErrorModel;

    open spec fn view(&self) -> ErrorModel {
        match self {
            Error::IllegalPayloadLength(n) => ErrorModel::IllegalPayloadLength(*n),
            Error::ModeInvalid(m) => ErrorModel::ModeInvalid(*m),
            Error::NonTzeTxn => ErrorModel::NonTzeTxn,
            Error::ModeMismatch => ErrorModel::ModeMismatch,
            Error::NonTzeBundle => ErrorModel::NonTzeBundle,
            Error::IncorrectTzeInputsAmount { expected, provided } => {
                ErrorModel::IncorrectTzeInputsAmount { expected: *expected, provided: *provided }
            },
            Error::IncorrectTzeOutputsAmount { expected, provided } => {
                ErrorModel::IncorrectTzeOutputsAmount { expected: *expected, provided: *provided }
            },
            Error::IncorrectTransparentOutputsAmount { expected, provided } => {
                ErrorModel::IncorrectTransparentOutputsAmount {
                    expected: *expected,
                    provided: *provided,
                }
            },
            Error::UnexpectedOutputPrecondition => ErrorModel::UnexpectedOutputPrecondition,
            Error::UnexpectedInputWitness => ErrorModel::UnexpectedInputWitness,
            Error::InvalidStfUpdate(msg) => ErrorModel::InvalidStfUpdate(msg@),
        }
    }
}

/// The outcome of a verification, with its error taken as an [`ErrorModel`].
pub open spec fn outcome(r: Result<(), Error>) -> Result<(), ErrorModel> {
    match r {
        Ok(()) => Ok(()),
        Err(e) => Err(e@),
    }
}

/// An `InvalidStfUpdate` error that carries the message `msg`.
pub fn stf_update_error(msg: &str) -> (e: Error)
    ensures
        e@ == ErrorModel::InvalidStfUpdate(msg@),
{
    Error::InvalidStfUpdate(msg.to_owned())
}

/// The decimal digits of `n`, most significant first, without leading zeros.
pub open spec fn decimal(n: nat) -> Seq<char>
    decreases n,
{
    if n < 10 {
        seq![(('0' as nat) + n) as char]
    } else {
        decimal(n / 10).push((('0' as nat) + n % 10) as char)
    }
}

/// Calls `u64::to_string`, which writes `n` in decimal as `Display` does for integers.
#[verifier::external_body]
fn decimal_string(n: u64) -> (s: String)
    ensures
        s@ == decimal(n as nat),
{
    n.to_string()
}

/// `prefix`, then `n` in decimal.
fn with_number(prefix: &str, n: u64) -> (s: String)
    ensures
        s@ == prefix@ + decimal(n as nat),
{
    let mut s = prefix.to_owned();
    let digits = decimal_string(n);
    s.append(digits.as_str());
    s
}

/// `"{prefix}{expected}, provided {provided}"`, with both counts in decimal.
fn with_counts(prefix: &str, expected: usize, provided: usize) -> (s: String)
    ensures
        s@ == prefix@ + decimal(expected as nat) + ", provided "@ + decimal(provided as nat),
{
    let mut s = with_number(prefix, expected as u64);
    s.append(", provided ");
    let digits = decimal_string(provided as u64);
    s.append(digits.as_str());
    s
}

impl ErrorModel {
    /// The human-readable message of an error.
    pub open spec fn message(self) -> Seq<char> {
        match self {
            ErrorModel::IllegalPayloadLength(sz) => "Illegal payload length for demo: "@ + decimal(
                sz as nat,
            ),
            ErrorModel::ModeInvalid(m) => "Invalid TZE mode for demo program: "@ + decimal(m as nat),
            ErrorModel::NonTzeTxn => "Transaction has non-TZE inputs."@,
            ErrorModel::ModeMismatch => "Extension operation mode mismatch."@,
            ErrorModel::NonTzeBundle => "Non-TZE bundles detected in transaction"@,
            ErrorModel::IncorrectTzeInputsAmount { expected, provided } => "Incorrect TZE inputs amount, expected "@
                + decimal(expected as nat) + ", provided "@ + decimal(provided as nat),
            ErrorModel::IncorrectTzeOutputsAmount { expected, provided } => "Incorrect TZE outputs amount, expected "@
                + decimal(expected as nat) + ", provided "@ + decimal(provided as nat),
            ErrorModel::IncorrectTransparentOutputsAmount {
                expected,
                provided,
            } => "Incorrect transparent outputs amount, expected "@ + decimal(expected as nat)
                + ", provided "@ + decimal(provided as nat),
            ErrorModel::UnexpectedOutputPrecondition => "Unexpected encoding for output precondition"@,
            ErrorModel::UnexpectedInputWitness => "Unexpected encoding for input witness"@,
            ErrorModel::InvalidStfUpdate(msg) => "Invalid STF update: "@ + msg,
        }
    }
}

impl Error {
    /// The human-readable message of `self` (what its `Display` writes).
    pub fn message(&self) -> (s: String)
        ensures
            s@ == self@.message(),
    {
        match self {
            Error::IllegalPayloadLength(sz) => with_number(
                "Illegal payload length for demo: ",
                *sz as u64,
            ),
            Error::ModeInvalid(m) => with_number("Invalid TZE mode for demo program: ", *m as u64),
            Error::NonTzeTxn => "Transaction has non-TZE inputs.".to_owned(),
            Error::ModeMismatch => "Extension operation mode mismatch.".to_owned(),
            Error::NonTzeBundle => "Non-TZE bundles detected in transaction".to_owned(),
            Error::IncorrectTzeInputsAmount { expected, provided } => with_counts(
                "Incorrect TZE inputs amount, expected ",
                *expected,
                *provided,
            ),
            Error::IncorrectTzeOutputsAmount { expected, provided } => with_counts(
                "Incorrect TZE outputs amount, expected ",
                *expected,
                *provided,
            ),
            Error::IncorrectTransparentOutputsAmount { expected, provided } => with_counts(
                "Incorrect transparent outputs amount, expected ",
                *expected,
                *provided,
            ),
            Error::UnexpectedOutputPrecondition => "Unexpected encoding for output precondition".to_owned(),
            Error::UnexpectedInputWitness => "Unexpected encoding for input witness".to_owned(),
            Error::InvalidStfUpdate(msg) => {
                let mut s = "Invalid STF update: ".to_owned();
                s.append(msg.as_str());
                s
            },
        }
    }
}

} // verus!
