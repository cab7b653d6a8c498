//! What holds of every ledger and every request.

use vstd::prelude::*;
use crate::address::{address_view, derive_outcome, derived_address, on_curve};
use crate::context::{Close, Initialize};
use crate::error::ErrorCode;
use crate::model::{
    close_outcome, close_state, lemma_with_balance, lemma_with_record, lemma_without_record,
    open_outcome, open_state, LedgerView,
};
use crate::pubkey::{lemma_pubkey_view_injective, Pubkey};
use crate::record::lemma_tags_differ;

verus! {

/// Derivation is repeatable: two answers to the same owner, nonce and
/// program id are the same answer.
pub proof fn lemma_derive_repeatable(
    authority: Pubkey,
    bump: u8,
    program_id: Pubkey,
    first: Result<Pubkey, ErrorCode>,
    second: Result<Pubkey, ErrorCode>,
)
    requires
        address_view(first) == derive_outcome(authority@, bump, program_id@),
        address_view(second) == derive_outcome(authority@, bump, program_id@),
    ensures
        first == second,
{
    match (first, second) {
        (Ok(a), Ok(b)) => {
            lemma_pubkey_view_injective(a, b);
        },
        _ => {},
    }
}

/// Every record lives where its owner and nonce put it, off the curve,
/// and an owner has at most one record under a nonce: two records that
/// name the same owner and nonce are the same record.
pub proof fn lemma_one_record_per_owner_and_nonce(s: LedgerView, first: Seq<u8>, second: Seq<u8>)
    requires
        s.wf(),
        s.records.contains_key(first),
        s.records.contains_key(second),
    ensures
        derived_address(s.records[first].authority, s.records[first].bump, s.program_id) == Some(
            first,
        ),
        !on_curve(first),
        s.records[first].authority == s.records[second].authority && s.records[first].bump
            == s.records[second].bump ==> first == second,
{
    assert(s.record_wf(first));
    assert(s.record_wf(second));
}

/// A refused request changes nothing.
pub proof fn lemma_refusal_changes_nothing(s: LedgerView, open: Initialize, bump: u8, shut: Close)
    ensures
        open_outcome(s, open, bump) is Err ==> open_state(s, open, bump) == s,
        close_outcome(s, shut) is Err ==> close_state(s, shut) == s,
{
}

/// Opening keeps the invariant and the supply: what leaves the payer's
/// wallet is what the record holds.
pub proof fn lemma_open_conserves(s: LedgerView, open: Initialize, bump: u8)
    requires
        s.wf(),
    ensures
        open_state(s, open, bump).wf(),
        open_state(s, open, bump).supply() == s.supply(),
        open_outcome(s, open, bump) matches Ok(record) ==> {
            &&& record.authority == open.authority@
            &&& record.bump == bump
            &&& record.lamports == open.lamports
            &&& record.is_open()
            &&& open_state(s, open, bump).records.contains_key(record.address)
            &&& open_state(s, open, bump).records[record.address] == record
            &&& open_state(s, open, bump).balance(open.payer.key@) + open.lamports == s.balance(
                open.payer.key@,
            )
        },
{
    if let Ok(record) = open_outcome(s, open, bump) {
        let payer = open.payer.key@;
        let debited = s.debited(payer, open.lamports as nat);
        lemma_tags_differ();
        lemma_with_balance(s, payer, (s.balance(payer) - open.lamports) as nat);
        lemma_with_record(debited, record);
    }
}

/// Closing keeps the invariant and the supply: what the record held is
/// what the owner's wallet gains.
pub proof fn lemma_close_conserves(s: LedgerView, shut: Close)
    requires
        s.wf(),
    ensures
        close_state(s, shut).wf(),
        close_state(s, shut).supply() == s.supply(),
        close_outcome(s, shut) is Ok ==> close_state(s, shut).balance(shut.authority.key@)
            == s.balance(shut.authority.key@) + s.held(shut.account@),
{
    if close_outcome(s, shut) is Ok {
        let address = shut.account@;
        let closer = shut.authority.key@;
        assert(s.record_wf(address));
        let released = s.released(address);
        lemma_tags_differ();
        if s.allow_reuse {
            lemma_without_record(s, address);
        } else {
            lemma_with_record(s, s.records[address].closed());
        }
        lemma_with_balance(released, closer, (released.balance(closer) + s.held(address)) as nat);
    }
}

/// Only the owner closes a record: a request that succeeds is signed by
/// the key that the record names as its owner, and the record was open.
pub proof fn lemma_close_needs_owner(s: LedgerView, shut: Close)
    requires
        close_outcome(s, shut) is Ok,
    ensures
        s.records.contains_key(shut.account@),
        s.records[shut.account@].authority == shut.authority.key@,
        shut.authority.is_signer,
        !s.records[shut.account@].is_closed(),
{
}

/// The owner of a record never changes: whatever a request does, a record
/// that is still there names the owner it named before, under the same
/// nonce.
pub proof fn lemma_owner_is_fixed(
    s: LedgerView,
    open: Initialize,
    bump: u8,
    shut: Close,
    address: Seq<u8>,
)
    requires
        s.wf(),
        s.records.contains_key(address),
    ensures
        open_state(s, open, bump).records.contains_key(address),
        open_state(s, open, bump).records[address] == s.records[address],
        close_state(s, shut).records.contains_key(address) ==> {
            &&& close_state(s, shut).records[address].authority == s.records[address].authority
            &&& close_state(s, shut).records[address].bump == s.records[address].bump
        },
        address != shut.account@ ==> close_state(s, shut).records.contains_key(address)
            && close_state(s, shut).records[address] == s.records[address],
{
    if s.records.contains_key(shut.account@) {
        assert(s.record_wf(shut.account@));
    }
}

/// Opening a record and closing it at once, by its owner, gives the owner
/// exactly what the record was funded with, and the record is gone: the
/// owner's wallet gains the funding amount, so an owner who paid for the
/// record has what they had before; no open record is left at the address;
/// and a further request to close it is refused, with `NotFound` where
/// reuse is allowed and with `AlreadyClosed` where it is not.
pub proof fn lemma_open_then_close(s: LedgerView, open: Initialize, bump: u8, shut: Close)
    requires
        s.wf(),
        open_outcome(s, open, bump) matches Ok(record) && record.address == shut.account@,
        shut.authority.key@ == open.authority@,
        shut.authority.is_signer,
    ensures
        close_outcome(open_state(s, open, bump), shut) is Ok,
        close_state(open_state(s, open, bump), shut).balance(open.authority@) == open_state(
            s,
            open,
            bump,
        ).balance(open.authority@) + open.lamports,
        open.payer.key@ == open.authority@ ==> close_state(
            open_state(s, open, bump),
            shut,
        ).balance(open.authority@) == s.balance(open.authority@),
        close_state(open_state(s, open, bump), shut).held(shut.account@) == 0,
        s.allow_reuse ==> !close_state(open_state(s, open, bump), shut).records.contains_key(
            shut.account@,
        ),
        !s.allow_reuse ==> close_state(open_state(s, open, bump), shut).records[shut.account@]
            == open_outcome(s, open, bump)->Ok_0.closed(),
        close_outcome(close_state(open_state(s, open, bump), shut), shut) == Err::<(), ErrorCode>(
            if s.allow_reuse {
                ErrorCode::NotFound
            } else {
                ErrorCode::AlreadyClosed
            },
        ),
{
    lemma_tags_differ();
}

/// Where reuse is allowed, opening a record and closing it at once leaves
/// the ledger as it was, if the owner paid for the record out of a wallet
/// that the ledger knew: every wallet and every record is what it was.
pub proof fn lemma_open_then_close_restores(s: LedgerView, open: Initialize, bump: u8, shut: Close)
    requires
        s.wf(),
        s.allow_reuse,
        s.wallets.contains_key(open.payer.key@),
        open.payer.key@ == open.authority@,
        open_outcome(s, open, bump) matches Ok(record) && record.address == shut.account@,
        shut.authority.key@ == open.authority@,
        shut.authority.is_signer,
    ensures
        close_state(open_state(s, open, bump), shut) == s,
{
    lemma_tags_differ();
    let after = close_state(open_state(s, open, bump), shut);
    assert(after.wallets =~= s.wallets);
    assert(after.records =~= s.records);
}

/// A key other than the owner cannot close a record: its signed request
/// is refused with `Unauthorized`, and the record and every balance stay
/// as they were.
pub proof fn lemma_stranger_cannot_close(s: LedgerView, shut: Close)
    requires
        s.wf(),
        s.records.contains_key(shut.account@),
        s.records[shut.account@].is_open(),
        shut.authority.is_signer,
        shut.authority.key@ != s.records[shut.account@].authority,
    ensures
        close_outcome(s, shut) == Err::<(), ErrorCode>(ErrorCode::Unauthorized),
        close_state(s, shut) == s,
{
    lemma_tags_differ();
}

/// Closing what is not there is refused with `NotFound`, whoever asks.
pub proof fn lemma_close_of_nothing(s: LedgerView, shut: Close)
    requires
        !s.records.contains_key(shut.account@),
    ensures
        close_outcome(s, shut) == Err::<(), ErrorCode>(ErrorCode::NotFound),
        close_state(s, shut) == s,
{
}

/// A record is closed once: after a request to close it has succeeded,
/// the same request is refused, with `NotFound` where reuse is allowed and
/// with `AlreadyClosed` where it is not, and nobody is credited again.
pub proof fn lemma_close_twice(s: LedgerView, shut: Close)
    requires
        s.wf(),
        close_outcome(s, shut) is Ok,
    ensures
        close_outcome(close_state(s, shut), shut) == Err::<(), ErrorCode>(
            if s.allow_reuse {
                ErrorCode::NotFound
            } else {
                ErrorCode::AlreadyClosed
            },
        ),
        close_state(close_state(s, shut), shut) == close_state(s, shut),
{
    lemma_tags_differ();
}

} // verus!
