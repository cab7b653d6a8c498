//! What a request names: the accounts of an `initialize` and of a `close`.

use vstd::prelude::*;
use crate::error::ErrorCode;
use crate::pubkey::Pubkey;
use crate::record::{OpenAccount, RecordView};

verus! {

/// An account as the host presents it with a request: its key, and whether
/// the host found the request signed by that key.
#[derive(Clone, Copy, Debug)]
pub struct AccountInfo {
    pub key: Pubkey,
    pub is_signer: bool,
}

/// The accounts of a request to open a record.
#[derive(Clone, Copy, Debug)]
pub struct Initialize {
    /// The key that will own the record.
    pub authority: Pubkey,
    /// The account that funds the record. It has to sign.
    pub payer: AccountInfo,
    /// The balance to move from the payer into the record.
    pub lamports: u64,
}

/// The accounts of a request to close a record.
#[derive(Clone, Copy, Debug)]
pub struct Close {
    /// The address of the record.
    pub account: Pubkey,
    /// The account that asks, and that receives the balance. It has to sign,
    /// and its key has to be the record's owner.
    pub authority: AccountInfo,
}

/// Whether a request to open a record is admitted, given whether its
/// address holds a record already and what the payer's wallet holds.
///
/// It is refused, in this order: with `Unauthenticated` where the payer has
/// not signed; with `AlreadyExists` where the address is occupied; with
/// `InsufficientFunds` where the payer holds less than the funding amount.
pub open spec fn admission(ctx: Initialize, occupied: bool, available: nat) -> Result<
    (),
    ErrorCode,
> {
    if !ctx.payer.is_signer {
        Err(ErrorCode::Unauthenticated)
    } else if occupied {
        Err(ErrorCode::AlreadyExists)
    } else if available < ctx.lamports {
        Err(ErrorCode::InsufficientFunds)
    } else {
        Ok(())
    }
}

/// Whether a request to close is granted, given what its address holds,
/// and if so the balance that goes to the owner.
///
/// It is refused, in this order: with `NotFound` where the address holds
/// nothing; with `AlreadyClosed` where the record there was closed; with
/// `Unauthenticated` where the asking account has not signed; with
/// `Unauthorized` where its key is not the record's owner.
pub open spec fn authorization(ctx: Close, found: Option<RecordView>) -> Result<nat, ErrorCode> {
    match found {
        None => Err(ErrorCode::NotFound),
        Some(record) => if record.is_closed() {
            Err(ErrorCode::AlreadyClosed)
        } else if !ctx.authority.is_signer {
            Err(ErrorCode::Unauthenticated)
        } else if record.authority != ctx.authority.key@ {
            Err(ErrorCode::Unauthorized)
        } else {
            Ok(record.lamports)
        },
    }
}

/// A balance, or a refusal, with the balance as a number.
pub open spec fn grant_view(res: Result<u64, ErrorCode>) -> Result<nat, ErrorCode> {
    match res {
        Ok(lamports) => Ok(lamports as nat),
        Err(e) => Err(e),
    }
}

/// What was found at an address, as its mathematical value.
pub open spec fn found_view(found: Option<OpenAccount>) -> Option<RecordView> {
    match found {
        Some(record) => Some(record@),
        None => None,
    }
}

impl Initialize {
    /// The key that the new record will name as its owner.
    pub fn get_authority(&self) -> (key: Pubkey)
        ensures
            key == self.authority,
    {
        self.authority
    }

    /// Decides whether the request passes at an address that is
    /// `occupied` or not, with `available` in the payer's wallet.
    pub fn validate(&self, occupied: bool, available: u64) -> (res: Result<(), ErrorCode>)
        ensures
            res == admission(*self, occupied, available as nat),
    {
        if !self.payer.is_signer {
            Err(ErrorCode::Unauthenticated)
        } else if occupied {
            Err(ErrorCode::AlreadyExists)
        } else if available < self.lamports {
            Err(ErrorCode::InsufficientFunds)
        } else {
            Ok(())
        }
    }
}

impl Close {
    /// Whether the asking key is the owner that `record` names.
    pub fn validate_authority(&self, record: &OpenAccount) -> (valid: bool)
        ensures
            valid == (record@.authority == self.authority.key@),
    {
        record.authority == self.authority.key
    }

    /// Decides whether the request is granted, given what its address
    /// holds, and says how much then goes to the owner.
    pub fn authorize(&self, found: Option<OpenAccount>) -> (res: Result<u64, ErrorCode>)
        ensures
            grant_view(res) == authorization(*self, found_view(found)),
    {
        match found {
            None => Err(ErrorCode::NotFound),
            Some(record) => if record.is_closed() {
                Err(ErrorCode::AlreadyClosed)
            } else if !self.authority.is_signer {
                Err(ErrorCode::Unauthenticated)
            } else if !self.validate_authority(&record) {
                Err(ErrorCode::Unauthorized)
            } else {
                Ok(record.lamports)
            },
        }
    }
}

} // verus!
