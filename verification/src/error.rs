//! The ways in which a request can fail.

use vstd::prelude::*;

verus! {

/// Why a request was refused. A refused request changes nothing.
#[derive(Clone, Copy, Debug, PartialEq, Eq, Structural)]
pub enum ErrorCode {
    /// The address already holds a record.
    AlreadyExists,
    /// The address holds no record.
    NotFound,
    /// The record at the address was closed before.
    AlreadyClosed,
    /// The funding account holds less than the amount asked of it.
    InsufficientFunds,
    /// A signature that the request needs is missing.
    Unauthenticated,
    /// The signer is not the owner of the record.
    Unauthorized,
    /// The nonce yields a point of the curve, which no record can live at.
    DerivationCollision,
}

impl ErrorCode {
    /// What the error says to the one who asked.
    pub open spec fn message_text(self) -> Seq<char> {
        match self {
            ErrorCode::AlreadyExists => "The address already holds a record."@,
            ErrorCode::NotFound => "The address holds no record."@,
            ErrorCode::AlreadyClosed => "The record was closed before."@,
            ErrorCode::InsufficientFunds => "The payer cannot cover the funding amount."@,
            ErrorCode::Unauthenticated => "A required signature is missing."@,
            ErrorCode::Unauthorized => "You are not authorized to perform this action."@,
            ErrorCode::DerivationCollision => "The nonce yields no usable address."@,
        }
    }

    /// What the error says to the one who asked.
    pub fn message(&self) -> (text: &'static str)
        ensures
            text@ == self.message_text(),
    {
        match self {
            ErrorCode::AlreadyExists => "The address already holds a record.",
            ErrorCode::NotFound => "The address holds no record.",
            ErrorCode::AlreadyClosed => "The record was closed before.",
            ErrorCode::InsufficientFunds => "The payer cannot cover the funding amount.",
            ErrorCode::Unauthenticated => "A required signature is missing.",
            ErrorCode::Unauthorized => "You are not authorized to perform this action.",
            ErrorCode::DerivationCollision => "The nonce yields no usable address.",
        }
    }
}

} // verus!
