//! Opening and closing records.

use vstd::prelude::*;
use crate::context::{Close, Initialize};
use crate::address::derived_address;
use crate::error::ErrorCode;
use crate::ledger::Ledger;
use crate::model::{close_outcome, close_state, open_outcome, open_state};
use crate::pubkey::Pubkey;
use crate::record::{OpenAccount, RecordView, ACCOUNT_DISCRIMINATOR};

verus! {

/// The answer to a request to open a record, with the record as its
/// mathematical value.
pub open spec fn outcome_view(res: Result<OpenAccount, ErrorCode>) -> Result<RecordView, ErrorCode> {
    match res {
        Ok(record) => Ok(record@),
        Err(e) => Err(e),
    }
}

/// Opens the record of `ctx.authority` at `address`, which is to be what
/// `derive` gives for that owner under the nonce `bump`.
///
/// The request is refused with `Unauthenticated` where the payer has not
/// signed, else with `AlreadyExists` where the address holds a record, open
/// or closed, else with `InsufficientFunds` where the payer's wallet holds
/// less than `ctx.lamports`. A refused request changes nothing. Otherwise
/// `ctx.lamports` leave the payer's wallet and the new record, which names
/// `ctx.authority` as its owner, holds exactly them.
pub fn open_at(ledger: &mut Ledger, ctx: &Initialize, bump: u8, address: Pubkey) -> (res: Result<
    OpenAccount,
    ErrorCode,
>)
    requires
        derived_address(ctx.authority@, bump, old(ledger)@.program_id) == Some(address@),
    ensures
        outcome_view(res) == open_outcome(old(ledger)@, *ctx, bump),
        final(ledger)@ == open_state(old(ledger)@, *ctx, bump),
        final(ledger)@.supply() == old(ledger)@.supply(),
{
    proof {
        use_type_invariant(&*ledger);
    }
    let occupied = ledger.record(&address).is_some();
    let available = ledger.balance(&ctx.payer.key);
    match ctx.validate(occupied, available) {
        Err(e) => {
            return Err(e);
        },
        Ok(_) => {},
    }
    let record = OpenAccount {
        address,
        authority: ctx.get_authority(),
        bump,
        lamports: ctx.lamports,
        discriminator: ACCOUNT_DISCRIMINATOR,
    };
    ledger.debit(&ctx.payer.key, ctx.lamports);
    ledger.allocate(record);
    Ok(record)
}

/// Opens the record of `ctx.authority` under the nonce `bump`, funded by
/// `ctx.payer` with `ctx.lamports`.
///
/// The address is derived first: where the nonce yields none, the request
/// is refused with `DerivationCollision`, and the caller may try another
/// nonce. The rest is `open_at` at the derived address.
pub fn initialize(ledger: &mut Ledger, ctx: &Initialize, bump: u8) -> (res: Result<
    OpenAccount,
    ErrorCode,
>)
    ensures
        outcome_view(res) == open_outcome(old(ledger)@, *ctx, bump),
        final(ledger)@ == open_state(old(ledger)@, *ctx, bump),
        final(ledger)@.supply() == old(ledger)@.supply(),
{
    let program_id = ledger.program_id();
    match crate::address::derive(&ctx.get_authority(), bump, &program_id) {
        Ok(address) => open_at(ledger, ctx, bump, address),
        Err(e) => Err(e),
    }
}

/// Closes the record at `ctx.account` for `ctx.authority`.
///
/// The request is refused with `NotFound` where the address holds no
/// record, else with `AlreadyClosed` where the record there was closed
/// before, else with `Unauthenticated` where the asking account has not
/// signed, else with `Unauthorized` where its key is not the record's
/// owner. A refused request changes nothing. Otherwise the balance is read,
/// the record gives up its storage and its balance, and the owner's wallet
/// is credited with all of it.
pub fn close(ledger: &mut Ledger, ctx: &Close) -> (res: Result<(), ErrorCode>)
    ensures
        res == close_outcome(old(ledger)@, *ctx),
        final(ledger)@ == close_state(old(ledger)@, *ctx),
        final(ledger)@.supply() == old(ledger)@.supply(),
{
    proof {
        use_type_invariant(&*ledger);
    }
    let found = ledger.record(&ctx.account);
    match ctx.authorize(found) {
        Err(e) => {
            return Err(e);
        },
        Ok(_) => {},
    }
    assert(ledger@.record_wf(ctx.account@));
    let lamports = ledger.release(&ctx.account);
    ledger.credit(&ctx.authority.key, lamports);
    Ok(())
}

} // verus!
