use vstd::prelude::*;

verus! {

/// Methods of the Stratum dialects; the classic ones carry a `mining.`
/// prefix on the wire.
#[derive(Clone, Debug)]
pub enum StratumMethod {
    Authorize,
    ClassicAuthorize,
    Submit,
    ClassicSubmit,
    Subscribe,
    ClassicSubscribe,
    Notify,
    ClassicNotify,
    SetDifficulty,
    ClassicSetDifficulty,
    Unknown(String),
}

impl StratumMethod {
    pub open spec fn spec_is_classic(&self) -> bool {
        self is ClassicAuthorize || self is ClassicSubmit || self is ClassicNotify
            || self is ClassicSetDifficulty
    }

    /// Whether the method belongs to the classic dialect (of those whose
    /// responses omit the method).
    pub fn is_classic(&self) -> (r: bool)
        ensures
            r == self.spec_is_classic(),
    {
        match self {
            StratumMethod::ClassicAuthorize => true,
            StratumMethod::ClassicSubmit => true,
            StratumMethod::ClassicNotify => true,
            StratumMethod::ClassicSetDifficulty => true,
            _ => false,
        }
    }
}

/// The credentials a miner authorizes with.
#[derive(Clone, Debug)]
pub struct MinerAuth {
    pub id: String,
    pub username: String,
    pub client: String,
}

/// Errors a pool reports to a miner, each with its numeric code.
#[derive(Clone, Debug)]
pub enum StratumError {
    Unknown(i32, String),
    StaleShare,
    DuplicateShare,
    LowDifficultyShare,
    Unauthorized,
    NotSubscribed,
    NodeSyncing,
    Internal,
    InvalidHeaderData,
    TimeOutOfRange,
    InvalidExtraNonce,
}

/// The code of each error: its own for `Unknown`, 21 to 30 for the others
/// in the order they are declared.
pub open spec fn error_code(e: StratumError) -> i32 {
    match e {
        StratumError::Unknown(code, _) => code,
        StratumError::StaleShare => 21,
        StratumError::DuplicateShare => 22,
        StratumError::LowDifficultyShare => 23,
        StratumError::Unauthorized => 24,
        StratumError::NotSubscribed => 25,
        StratumError::NodeSyncing => 26,
        StratumError::Internal => 27,
        StratumError::InvalidHeaderData => 28,
        StratumError::TimeOutOfRange => 29,
        StratumError::InvalidExtraNonce => 30,
    }
}

impl StratumError {
    pub fn get_error_code(&self) -> (r: i32)
        ensures
            r == error_code(*self),
    {
        match self {
            StratumError::Unknown(code, _) => *code,
            StratumError::StaleShare => 21,
            StratumError::DuplicateShare => 22,
            StratumError::LowDifficultyShare => 23,
            StratumError::Unauthorized => 24,
            StratumError::NotSubscribed => 25,
            StratumError::NodeSyncing => 26,
            StratumError::Internal => 27,
            StratumError::InvalidHeaderData => 28,
            StratumError::TimeOutOfRange => 29,
            StratumError::InvalidExtraNonce => 30,
        }
    }

    /// The error a code stands for; a code of no known error keeps its
    /// message under `Unknown`.
    pub fn from_code(code: i32, message: String) -> (r: StratumError)
        ensures
            error_code(r) == code,
            21 <= code <= 30 ==> !(r is Unknown),
            !(21 <= code <= 30) ==> r == StratumError::Unknown(code, message),
    {
        match code {
            21 => StratumError::StaleShare,
            22 => StratumError::DuplicateShare,
            23 => StratumError::LowDifficultyShare,
            24 => StratumError::Unauthorized,
            25 => StratumError::NotSubscribed,
            26 => StratumError::NodeSyncing,
            27 => StratumError::Internal,
            28 => StratumError::InvalidHeaderData,
            29 => StratumError::TimeOutOfRange,
            30 => StratumError::InvalidExtraNonce,
            _ => StratumError::Unknown(code, message),
        }
    }
}

} // verus!
