//! The ledger as a mathematical value, and what a request does to it.

use vstd::prelude::*;
use crate::context::{admission, authorization, Close, Initialize};
use crate::address::{derived_address, on_curve};
use crate::error::ErrorCode;
use crate::record::RecordView;
use crate::totals::{lemma_total_insert, lemma_total_remove, total};

verus! {

/// The state of the ledger: who holds how much, and which records exist.
pub struct LedgerView {
    /// The program under which record addresses are derived.
    pub program_id: Seq<u8>,
    /// Whether the address of a closed record may be opened again.
    pub allow_reuse: bool,
    /// The balance of each wallet, by key.
    pub wallets: Map<Seq<u8>, nat>,
    /// The records, by address. A closed one stays only where reuse is
    /// forbidden.
    pub records: Map<Seq<u8>, RecordView>,
}

impl LedgerView {
    /// The ledger that holds nothing.
    pub open spec fn empty(program_id: Seq<u8>, allow_reuse: bool) -> LedgerView {
        LedgerView { program_id, allow_reuse, wallets: Map::empty(), records: Map::empty() }
    }

    /// The balance of the wallet of `key`: nothing, where there is none.
    pub open spec fn balance(self, key: Seq<u8>) -> nat {
        if self.wallets.contains_key(key) {
            self.wallets[key]
        } else {
            0
        }
    }

    /// What `address` holds: a record, open or closed, or nothing.
    pub open spec fn found(self, address: Seq<u8>) -> Option<RecordView> {
        if self.records.contains_key(address) {
            Some(self.records[address])
        } else {
            None
        }
    }

    /// The balance that the record at `address` holds: nothing, where there
    /// is none.
    pub open spec fn held(self, address: Seq<u8>) -> nat {
        if self.records.contains_key(address) {
            self.records[address].lamports
        } else {
            0
        }
    }

    /// What each record holds in custody.
    pub open spec fn custody(self) -> Map<Seq<u8>, nat> {
        self.records.map_values(|r: RecordView| r.lamports)
    }

    /// All the units there are: in wallets and in custody.
    pub open spec fn supply(self) -> nat {
        total(self.wallets) + total(self.custody())
    }

    /// What holds of the record at `address`: it knows where it lives, its
    /// address is the one derived from its owner and nonce, which no
    /// private key can sign for, and it is open unless it is the empty mark
    /// of a record closed where reuse is forbidden.
    pub open spec fn record_wf(self, address: Seq<u8>) -> bool {
        let r = self.records[address];
        &&& r.address == address
        &&& derived_address(r.authority, r.bump, self.program_id) == Some(address)
        &&& !on_curve(address)
        &&& (r.is_open() || r.is_closed())
        &&& (r.is_closed() ==> r.lamports == 0 && !self.allow_reuse)
    }

    /// The invariant of the ledger.
    pub open spec fn wf(self) -> bool {
        &&& self.wallets.dom().finite()
        &&& self.records.dom().finite()
        &&& forall|address: Seq<u8>| #[trigger]
            self.records.contains_key(address) ==> self.record_wf(address)
    }

    /// The ledger with the wallet of `key` set to `amount`.
    pub open spec fn with_balance(self, key: Seq<u8>, amount: nat) -> LedgerView {
        LedgerView { wallets: self.wallets.insert(key, amount), ..self }
    }

    /// The ledger with `amount` taken out of the wallet of `key`.
    pub open spec fn debited(self, key: Seq<u8>, amount: nat) -> LedgerView {
        self.with_balance(key, (self.balance(key) - amount) as nat)
    }

    /// The ledger with `amount` put into the wallet of `key`.
    pub open spec fn credited(self, key: Seq<u8>, amount: nat) -> LedgerView {
        self.with_balance(key, (self.balance(key) + amount) as nat)
    }

    /// The ledger with `record` written at its address.
    pub open spec fn with_record(self, record: RecordView) -> LedgerView {
        LedgerView { records: self.records.insert(record.address, record), ..self }
    }

    /// The ledger with nothing at `address`.
    pub open spec fn without_record(self, address: Seq<u8>) -> LedgerView {
        LedgerView { records: self.records.remove(address), ..self }
    }

    /// The ledger once the record at `address` has given up its storage:
    /// gone where reuse is allowed, an empty closed mark where it is not.
    pub open spec fn released(self, address: Seq<u8>) -> LedgerView {
        if self.allow_reuse {
            self.without_record(address)
        } else {
            self.with_record(self.records[address].closed())
        }
    }
}

/// What a request to open a record is answered with.
///
/// It fails with `DerivationCollision` where the nonce yields no address,
/// else as `admission` says of the derived address and the payer's
/// wallet. Otherwise it gives the new record.
pub open spec fn open_outcome(s: LedgerView, ctx: Initialize, bump: u8) -> Result<
    RecordView,
    ErrorCode,
> {
    match derived_address(ctx.authority@, bump, s.program_id) {
        None => Err(ErrorCode::DerivationCollision),
        Some(address) => match admission(
            ctx,
            s.records.contains_key(address),
            s.balance(ctx.payer.key@),
        ) {
            Err(e) => Err(e),
            Ok(_) => Ok(RecordView::opened(address, ctx.authority@, bump, ctx.lamports as nat)),
        },
    }
}

/// The ledger after a request to open a record: the payer is debited and the
/// record written, or, where the request fails, nothing has changed.
pub open spec fn open_state(s: LedgerView, ctx: Initialize, bump: u8) -> LedgerView {
    match open_outcome(s, ctx, bump) {
        Ok(record) => s.debited(ctx.payer.key@, ctx.lamports as nat).with_record(record),
        Err(_) => s,
    }
}

/// What a request to close a record is answered with: what
/// `authorization` says of the record at its address.
pub open spec fn close_outcome(s: LedgerView, ctx: Close) -> Result<(), ErrorCode> {
    match authorization(ctx, s.found(ctx.account@)) {
        Ok(_) => Ok(()),
        Err(e) => Err(e),
    }
}

/// The ledger after a request to close a record: the record has given up
/// its storage and the owner is credited with all that it held, or, where
/// the request fails, nothing has changed.
pub open spec fn close_state(s: LedgerView, ctx: Close) -> LedgerView {
    match close_outcome(s, ctx) {
        Ok(_) => s.released(ctx.account@).credited(ctx.authority.key@, s.held(ctx.account@)),
        Err(_) => s,
    }
}

/// Setting a wallet changes the supply by what the wallet gains.
pub proof fn lemma_with_balance(s: LedgerView, key: Seq<u8>, amount: nat)
    requires
        s.wf(),
    ensures
        s.with_balance(key, amount).wf(),
        s.with_balance(key, amount).supply() + s.balance(key) == s.supply() + amount,
        s.balance(key) <= s.supply(),
{
    let t = s.with_balance(key, amount);
    lemma_total_insert(s.wallets, key, amount);
    if s.wallets.contains_key(key) {
        lemma_total_remove(s.wallets, key);
    } else {
        assert(s.wallets.remove(key) =~= s.wallets);
    }
    assert forall|address: Seq<u8>| #[trigger] t.records.contains_key(address) implies t.record_wf(
        address,
    ) by {
        assert(s.record_wf(address));
    }
}

/// Custody is finite where the records are, and follows them.
proof fn lemma_custody(s: LedgerView)
    requires
        s.records.dom().finite(),
    ensures
        s.custody().dom().finite(),
        s.custody().dom() == s.records.dom(),
        forall|address: Seq<u8>| #[trigger]
            s.records.contains_key(address) ==> s.custody()[address] == s.records[address].lamports,
{
    assert(s.custody().dom() =~= s.records.dom());
}

/// Writing a record changes the supply by what the address gains.
pub proof fn lemma_with_record(s: LedgerView, record: RecordView)
    requires
        s.wf(),
        derived_address(record.authority, record.bump, s.program_id) == Some(record.address),
        record.is_open() || record.is_closed(),
        record.is_closed() ==> record.lamports == 0 && !s.allow_reuse,
    ensures
        s.with_record(record).wf(),
        s.with_record(record).supply() + s.held(record.address) == s.supply() + record.lamports,
        s.held(record.address) <= s.supply(),
{
    let t = s.with_record(record);
    lemma_custody(s);
    lemma_custody(t);
    assert(t.custody() =~= s.custody().insert(record.address, record.lamports));
    lemma_total_insert(s.custody(), record.address, record.lamports);
    if s.records.contains_key(record.address) {
        lemma_total_remove(s.custody(), record.address);
    } else {
        assert(s.custody().remove(record.address) =~= s.custody());
    }
    assert forall|address: Seq<u8>| #[trigger] t.records.contains_key(address) implies t.record_wf(
        address,
    ) by {
        if address != record.address {
            assert(s.record_wf(address));
        }
    }
}

/// Taking a record away takes what it held out of the supply.
pub proof fn lemma_without_record(s: LedgerView, address: Seq<u8>)
    requires
        s.wf(),
    ensures
        s.without_record(address).wf(),
        s.without_record(address).supply() + s.held(address) == s.supply(),
{
    let t = s.without_record(address);
    lemma_custody(s);
    lemma_custody(t);
    assert(t.custody() =~= s.custody().remove(address));
    if s.records.contains_key(address) {
        lemma_total_remove(s.custody(), address);
    } else {
        assert(s.custody().remove(address) =~= s.custody());
    }
    assert forall|a: Seq<u8>| #[trigger] t.records.contains_key(a) implies t.record_wf(a) by {
        assert(s.record_wf(a));
    }
}

} // verus!

