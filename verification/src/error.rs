//! The errors of the operator's side of the gateway.

use vstd::prelude::*;

verus! {

/// What can go wrong while a port is reconciled or billed. Each kind
/// carries the message of the failure.
#[derive(Debug)]
pub enum OperatorError {
    KubeError(String),
    ArgonError(String),
    Bech32Error(String),
    DeserializeError(String),
    ParseIntError(String),
    HttpError(String),
    ConfigError(String),
}

/// The lower-case name of the kind of an error.
pub open spec fn kind_label(e: OperatorError) -> Seq<char> {
    match e {
        OperatorError::KubeError(_) => "kubeerror"@,
        OperatorError::ArgonError(_) => "argonerror"@,
        OperatorError::Bech32Error(_) => "bech32error"@,
        OperatorError::DeserializeError(_) => "deserializeerror"@,
        OperatorError::ParseIntError(_) => "parseinterror"@,
        OperatorError::HttpError(_) => "httperror"@,
        OperatorError::ConfigError(_) => "configerror"@,
    }
}

impl OperatorError {
    /// The label of the error in failure counters: the lower-case name of its kind.
    pub fn metric_label(&self) -> (r: String)
        ensures
            r@ == kind_label(*self),
    {
        match self {
            OperatorError::KubeError(_) => "kubeerror".to_owned(),
            OperatorError::ArgonError(_) => "argonerror".to_owned(),
            OperatorError::Bech32Error(_) => "bech32error".to_owned(),
            OperatorError::DeserializeError(_) => "deserializeerror".to_owned(),
            OperatorError::ParseIntError(_) => "parseinterror".to_owned(),
            OperatorError::HttpError(_) => "httperror".to_owned(),
            OperatorError::ConfigError(_) => "configerror".to_owned(),
        }
    }

    /// The message that the error carries.
    pub fn message(&self) -> (r: &String)
        ensures
            *r == match *self {
                OperatorError::KubeError(m) => m,
                OperatorError::ArgonError(m) => m,
                OperatorError::Bech32Error(m) => m,
                OperatorError::DeserializeError(m) => m,
                OperatorError::ParseIntError(m) => m,
                OperatorError::HttpError(m) => m,
                OperatorError::ConfigError(m) => m,
            },
    {
        match self {
            OperatorError::KubeError(m) => m,
            OperatorError::ArgonError(m) => m,
            OperatorError::Bech32Error(m) => m,
            OperatorError::DeserializeError(m) => m,
            OperatorError::ParseIntError(m) => m,
            OperatorError::HttpError(m) => m,
            OperatorError::ConfigError(m) => m,
        }
    }
}

} // verus!
