//! The ledger: wallets, records, and the primitives that move balance and
//! storage.

use vstd::prelude::*;
use crate::address::derived_address;
use crate::context::found_view;
use crate::model::{lemma_with_balance, lemma_with_record, lemma_without_record, LedgerView};
use crate::pubkey::Pubkey;
use crate::record::{lemma_tags_differ, OpenAccount, RecordView, CLOSED_ACCOUNT_DISCRIMINATOR};
use crate::totals::lemma_total_empty;

verus! {

/// A wallet: a key and the balance it holds.
struct Wallet {
    key: Pubkey,
    lamports: u64,
}

spec fn has_wallet(ws: Seq<Wallet>, key: Seq<u8>) -> bool {
    exists|i: int| 0 <= i < ws.len() && #[trigger] ws[i].key@ == key
}

spec fn wallet_at(ws: Seq<Wallet>, key: Seq<u8>) -> int {
    choose|i: int| 0 <= i < ws.len() && #[trigger] ws[i].key@ == key
}

/// No key has two wallets.
spec fn wallets_distinct(ws: Seq<Wallet>) -> bool {
    forall|i: int, j: int| 0 <= i < j < ws.len() ==> #[trigger] ws[i].key@ != #[trigger] ws[j].key@
}

/// The balances that a list of wallets stands for.
spec fn wallets_view(ws: Seq<Wallet>) -> Map<Seq<u8>, nat> {
    Map::new(|key: Seq<u8>| has_wallet(ws, key), |key: Seq<u8>| ws[wallet_at(ws, key)].lamports as nat)
}

proof fn lemma_wallet_found(ws: Seq<Wallet>, i: int)
    requires
        wallets_distinct(ws),
        0 <= i < ws.len(),
    ensures
        has_wallet(ws, ws[i].key@),
        wallet_at(ws, ws[i].key@) == i,
        wallets_view(ws).contains_key(ws[i].key@),
        wallets_view(ws)[ws[i].key@] == ws[i].lamports,
{
}

proof fn lemma_wallet_set(ws: Seq<Wallet>, i: int, w: Wallet)
    requires
        wallets_distinct(ws),
        0 <= i < ws.len(),
        w.key@ == ws[i].key@,
    ensures
        wallets_distinct(ws.update(i, w)),
        wallets_view(ws.update(i, w)) == wallets_view(ws).insert(w.key@, w.lamports as nat),
{
    let us = ws.update(i, w);
    assert forall|key: Seq<u8>| has_wallet(us, key) <==> has_wallet(ws, key) by {
        if has_wallet(us, key) {
            let j = wallet_at(us, key);
            assert(ws[j].key@ == key);
        }
        if has_wallet(ws, key) {
            let j = wallet_at(ws, key);
            assert(us[j].key@ == key);
        }
    }
    assert forall|key: Seq<u8>| has_wallet(us, key) implies wallets_view(us)[key]
        == wallets_view(ws).insert(w.key@, w.lamports as nat)[key] by {
        let j = wallet_at(us, key);
        lemma_wallet_found(us, j);
        lemma_wallet_found(ws, j);
    }
    lemma_wallet_found(ws, i);
    assert(wallets_view(us) =~= wallets_view(ws).insert(w.key@, w.lamports as nat));
}

proof fn lemma_wallet_push(ws: Seq<Wallet>, w: Wallet)
    requires
        wallets_distinct(ws),
        !has_wallet(ws, w.key@),
    ensures
        wallets_distinct(ws.push(w)),
        wallets_view(ws.push(w)) == wallets_view(ws).insert(w.key@, w.lamports as nat),
{
    let us = ws.push(w);
    assert forall|i: int, j: int| 0 <= i < j < us.len() implies #[trigger] us[i].key@
        != #[trigger] us[j].key@ by {
        if j == ws.len() {
            assert(ws[i].key@ != w.key@);
        }
    }
    assert forall|key: Seq<u8>| has_wallet(us, key) <==> (has_wallet(ws, key) || key == w.key@) by {
        if has_wallet(us, key) {
            let j = wallet_at(us, key);
            if j < ws.len() {
                assert(ws[j].key@ == key);
            }
        }
        if has_wallet(ws, key) {
            let j = wallet_at(ws, key);
            assert(us[j].key@ == key);
        }
        if key == w.key@ {
            assert(us[ws.len() as int].key@ == key);
        }
    }
    assert forall|key: Seq<u8>| has_wallet(us, key) implies wallets_view(us)[key]
        == wallets_view(ws).insert(w.key@, w.lamports as nat)[key] by {
        let j = wallet_at(us, key);
        lemma_wallet_found(us, j);
        if j < ws.len() {
            lemma_wallet_found(ws, j);
        }
    }
    assert(wallets_view(us) =~= wallets_view(ws).insert(w.key@, w.lamports as nat));
}

spec fn has_record(rs: Seq<OpenAccount>, address: Seq<u8>) -> bool {
    exists|i: int| 0 <= i < rs.len() && #[trigger] rs[i].address@ == address
}

spec fn record_at(rs: Seq<OpenAccount>, address: Seq<u8>) -> int {
    choose|i: int| 0 <= i < rs.len() && #[trigger] rs[i].address@ == address
}

/// No address has two records.
spec fn records_distinct(rs: Seq<OpenAccount>) -> bool {
    forall|i: int, j: int|
        0 <= i < j < rs.len() ==> #[trigger] rs[i].address@ != #[trigger] rs[j].address@
}

/// The records that a list of records stands for, by address.
spec fn records_view(rs: Seq<OpenAccount>) -> Map<Seq<u8>, RecordView> {
    Map::new(|address: Seq<u8>| has_record(rs, address), |address: Seq<u8>| rs[record_at(rs, address)]@)
}

proof fn lemma_record_found(rs: Seq<OpenAccount>, i: int)
    requires
        records_distinct(rs),
        0 <= i < rs.len(),
    ensures
        has_record(rs, rs[i].address@),
        record_at(rs, rs[i].address@) == i,
        records_view(rs).contains_key(rs[i].address@),
        records_view(rs)[rs[i].address@] == rs[i]@,
{
}

proof fn lemma_record_set(rs: Seq<OpenAccount>, i: int, r: OpenAccount)
    requires
        records_distinct(rs),
        0 <= i < rs.len(),
        r.address@ == rs[i].address@,
    ensures
        records_distinct(rs.update(i, r)),
        records_view(rs.update(i, r)) == records_view(rs).insert(r.address@, r@),
{
    let us = rs.update(i, r);
    assert forall|address: Seq<u8>| has_record(us, address) <==> has_record(rs, address) by {
        if has_record(us, address) {
            let j = record_at(us, address);
            assert(rs[j].address@ == address);
        }
        if has_record(rs, address) {
            let j = record_at(rs, address);
            assert(us[j].address@ == address);
        }
    }
    assert forall|address: Seq<u8>| has_record(us, address) implies records_view(us)[address]
        == records_view(rs).insert(r.address@, r@)[address] by {
        let j = record_at(us, address);
        lemma_record_found(us, j);
        lemma_record_found(rs, j);
    }
    lemma_record_found(rs, i);
    assert(records_view(us) =~= records_view(rs).insert(r.address@, r@));
}

proof fn lemma_record_push(rs: Seq<OpenAccount>, r: OpenAccount)
    requires
        records_distinct(rs),
        !has_record(rs, r.address@),
    ensures
        records_distinct(rs.push(r)),
        records_view(rs.push(r)) == records_view(rs).insert(r.address@, r@),
{
    let us = rs.push(r);
    assert forall|i: int, j: int| 0 <= i < j < us.len() implies #[trigger] us[i].address@
        != #[trigger] us[j].address@ by {
        if j == rs.len() {
            assert(rs[i].address@ != r.address@);
        }
    }
    assert forall|address: Seq<u8>| has_record(us, address) <==> (has_record(rs, address) || address
        == r.address@) by {
        if has_record(us, address) {
            let j = record_at(us, address);
            if j < rs.len() {
                assert(rs[j].address@ == address);
            }
        }
        if has_record(rs, address) {
            let j = record_at(rs, address);
            assert(us[j].address@ == address);
        }
        if address == r.address@ {
            assert(us[rs.len() as int].address@ == address);
        }
    }
    assert forall|address: Seq<u8>| has_record(us, address) implies records_view(us)[address]
        == records_view(rs).insert(r.address@, r@)[address] by {
        let j = record_at(us, address);
        lemma_record_found(us, j);
        if j < rs.len() {
            lemma_record_found(rs, j);
        }
    }
    assert(records_view(us) =~= records_view(rs).insert(r.address@, r@));
}

proof fn lemma_record_remove(rs: Seq<OpenAccount>, i: int)
    requires
        records_distinct(rs),
        0 <= i < rs.len(),
    ensures
        records_distinct(rs.remove(i)),
        records_view(rs.remove(i)) == records_view(rs).remove(rs[i].address@),
{
    let us = rs.remove(i);
    let gone = rs[i].address@;
    assert forall|j: int| 0 <= j < us.len() implies #[trigger] us[j] == rs[if j < i {
        j
    } else {
        j + 1
    }] by {}
    assert forall|a: int, b: int| 0 <= a < b < us.len() implies #[trigger] us[a].address@
        != #[trigger] us[b].address@ by {
        let x = if a < i { a } else { a + 1 };
        let y = if b < i { b } else { b + 1 };
        assert(rs[x].address@ != rs[y].address@);
    }
    assert forall|address: Seq<u8>| has_record(us, address) <==> (has_record(rs, address) && address
        != gone) by {
        if has_record(us, address) {
            let j = record_at(us, address);
            let x = if j < i { j } else { j + 1 };
            assert(rs[x].address@ == address);
            lemma_record_found(rs, x);
        }
        if has_record(rs, address) && address != gone {
            let x = record_at(rs, address);
            let j = if x < i { x } else { x - 1 };
            assert(us[j].address@ == address);
        }
    }
    assert forall|address: Seq<u8>| has_record(us, address) implies records_view(us)[address]
        == records_view(rs)[address] by {
        let j = record_at(us, address);
        let x = if j < i { j } else { j + 1 };
        lemma_record_found(us, j);
        lemma_record_found(rs, x);
    }
    assert(records_view(us) =~= records_view(rs).remove(gone));
}

fn find_wallet(wallets: &Vec<Wallet>, key: &Pubkey) -> (found: Option<usize>)
    ensures
        match found {
            Some(i) => i < wallets@.len() && wallets@[i as int].key@ == key@,
            None => !has_wallet(wallets@, key@),
        },
{
    let mut i: usize = 0;
    while i < wallets.len()
        invariant
            i <= wallets@.len(),
            forall|j: int| 0 <= j < i ==> (#[trigger] wallets@[j].key@) != key@,
        decreases wallets@.len() - i,
    {
        if wallets[i].key == *key {
            return Some(i);
        }
        i += 1;
    }
    None
}

fn find_record(records: &Vec<OpenAccount>, address: &Pubkey) -> (found: Option<usize>)
    ensures
        match found {
            Some(i) => i < records@.len() && records@[i as int].address@ == address@,
            None => !has_record(records@, address@),
        },
{
    let mut i: usize = 0;
    while i < records.len()
        invariant
            i <= records@.len(),
            forall|j: int| 0 <= j < i ==> (#[trigger] records@[j].address@) != address@,
        decreases records@.len() - i,
    {
        if records[i].address == *address {
            return Some(i);
        }
        i += 1;
    }
    None
}

/// The ledger: the balance of every wallet and every record there is,
/// under one program id and one rule on the reuse of addresses.
///
/// Every ledger is well formed: `wf` is an invariant of the type.
pub struct Ledger {
    program_id: Pubkey,
    allow_reuse: bool,
    wallets: Vec<Wallet>,
    records: Vec<OpenAccount>,
    supply: u64,
}

impl View for Ledger {
    type V = LedgerView;

    closed spec fn view(&self) -> LedgerView {
        LedgerView {
            program_id: self.program_id@,
            allow_reuse: self.allow_reuse,
            wallets: wallets_view(self.wallets@),
            records: records_view(self.records@),
        }
    }
}

impl Ledger {
    /// What holds of the stored lists: no key and no address occurs twice,
    /// and the stored supply is the sum of all balances.
    pub closed spec fn inv(&self) -> bool {
        &&& wallets_distinct(self.wallets@)
        &&& records_distinct(self.records@)
        &&& self.supply as nat == self@.supply()
    }

    /// The invariant of the ledger, which holds of every ledger at all
    /// times: the stored lists are sound, the state they stand for is well
    /// formed, and the supply fits the machine's balances.
    #[verifier::type_invariant]
    pub open spec fn wf(&self) -> bool {
        &&& self.inv()
        &&& self@.wf()
        &&& self@.supply() <= u64::MAX
    }

    /// An empty ledger for the program `program_id`. With `allow_reuse` the
    /// address of a closed record can be opened again; without it the
    /// address stays marked as closed.
    pub fn new(program_id: Pubkey, allow_reuse: bool) -> (ledger: Ledger)
        ensures
            ledger@ == LedgerView::empty(program_id@, allow_reuse),
    {
        let wallets: Vec<Wallet> = Vec::new();
        let records: Vec<OpenAccount> = Vec::new();
        proof {
            assert(wallets_view(wallets@) =~= Map::empty());
            assert(records_view(records@) =~= Map::empty());
            assert(LedgerView::empty(program_id@, allow_reuse).custody() =~= Map::empty());
            lemma_total_empty::<Seq<u8>>();
        }
        Ledger { program_id, allow_reuse, wallets, records, supply: 0 }
    }

    /// The program under which this ledger derives addresses.
    pub fn program_id(&self) -> (id: Pubkey)
        ensures
            id@ == self@.program_id,
    {
        self.program_id
    }

    /// Whether the address of a closed record may be opened again.
    pub fn allow_reuse(&self) -> (allowed: bool)
        ensures
            allowed == self@.allow_reuse,
    {
        self.allow_reuse
    }

    /// All the units there are, in wallets and in custody.
    pub fn supply(&self) -> (units: u64)
        ensures
            units == self@.supply(),
    {
        proof {
            use_type_invariant(self);
        }
        self.supply
    }

    /// The balance of the wallet of `key`: nothing, where it has none.
    pub fn balance(&self, key: &Pubkey) -> (lamports: u64)
        ensures
            lamports == self@.balance(key@),
    {
        proof {
            use_type_invariant(self);
        }
        match find_wallet(&self.wallets, key) {
            Some(i) => {
                proof {
                    lemma_wallet_found(self.wallets@, i as int);
                }
                self.wallets[i].lamports
            },
            None => 0,
        }
    }

    /// What the address holds: a record, open or closed, or nothing.
    pub fn record(&self, address: &Pubkey) -> (found: Option<OpenAccount>)
        ensures
            found_view(found) == self@.found(address@),
    {
        proof {
            use_type_invariant(self);
        }
        match find_record(&self.records, address) {
            Some(i) => {
                proof {
                    lemma_record_found(self.records@, i as int);
                }
                Some(self.records[i])
            },
            None => None,
        }
    }

    /// Takes the ledger apart, so that its lists can be changed, and leaves
    /// an empty one in its place.
    fn take(&mut self) -> (taken: Ledger)
        ensures
            taken == *old(self),
    {
        let mut taken = Ledger::new(self.program_id, self.allow_reuse);
        std::mem::swap(&mut taken, self);
        taken
    }

    /// Puts `amount` into the wallet of `key`, which comes to be where
    /// there was none.
    pub(crate) fn credit(&mut self, key: &Pubkey, amount: u64)
        requires
            old(self)@.supply() + amount <= u64::MAX,
        ensures
            final(self)@ == old(self)@.credited(key@, amount as nat),
            final(self)@.supply() == old(self)@.supply() + amount,
    {
        proof {
            use_type_invariant(&*self);
            lemma_with_balance(self@, key@, (self@.balance(key@) + amount) as nat);
        }
        let Ledger { program_id, allow_reuse, mut wallets, records, supply } = self.take();
        match find_wallet(&wallets, key) {
            Some(i) => {
                proof {
                    lemma_wallet_found(wallets@, i as int);
                }
                let wallet = Wallet { key: wallets[i].key, lamports: wallets[i].lamports + amount };
                proof {
                    lemma_wallet_set(wallets@, i as int, wallet);
                }
                wallets.set(i, wallet);
            },
            None => {
                let wallet = Wallet { key: *key, lamports: amount };
                proof {
                    lemma_wallet_push(wallets@, wallet);
                }
                wallets.push(wallet);
            },
        }
        *self = Ledger { program_id, allow_reuse, wallets, records, supply: supply + amount };
    }

    /// Takes `amount` out of the wallet of `key`.
    pub(crate) fn debit(&mut self, key: &Pubkey, amount: u64)
        requires
            amount <= old(self)@.balance(key@),
        ensures
            final(self)@ == old(self)@.debited(key@, amount as nat),
            final(self)@.supply() + amount == old(self)@.supply(),
    {
        proof {
            use_type_invariant(&*self);
            lemma_with_balance(self@, key@, (self@.balance(key@) - amount) as nat);
        }
        let Ledger { program_id, allow_reuse, mut wallets, records, supply } = self.take();
        match find_wallet(&wallets, key) {
            Some(i) => {
                proof {
                    lemma_wallet_found(wallets@, i as int);
                }
                let wallet = Wallet { key: wallets[i].key, lamports: wallets[i].lamports - amount };
                proof {
                    lemma_wallet_set(wallets@, i as int, wallet);
                }
                wallets.set(i, wallet);
            },
            None => {
                let wallet = Wallet { key: *key, lamports: 0 };
                proof {
                    lemma_wallet_push(wallets@, wallet);
                }
                wallets.push(wallet);
            },
        }
        *self = Ledger { program_id, allow_reuse, wallets, records, supply: supply - amount };
    }

    /// Writes `record` at its address, which holds nothing yet.
    pub(crate) fn allocate(&mut self, record: OpenAccount)
        requires
            !old(self)@.records.contains_key(record@.address),
            derived_address(record@.authority, record@.bump, old(self)@.program_id) == Some(
                record@.address,
            ),
            record@.is_open(),
            old(self)@.supply() + record.lamports <= u64::MAX,
        ensures
            final(self)@ == old(self)@.with_record(record@),
            final(self)@.supply() == old(self)@.supply() + record.lamports,
    {
        proof {
            use_type_invariant(&*self);
            lemma_tags_differ();
            lemma_with_record(self@, record@);
            lemma_record_push(self.records@, record);
        }
        let Ledger { program_id, allow_reuse, wallets, mut records, supply } = self.take();
        records.push(record);
        *self = Ledger {
            program_id,
            allow_reuse,
            wallets,
            records,
            supply: supply + record.lamports,
        };
    }

    /// Takes the storage of the open record at `address` away and hands out
    /// the balance it held. Where reuse is allowed nothing is left at the
    /// address; where it is not, the empty mark of a closed record stays.
    pub(crate) fn release(&mut self, address: &Pubkey) -> (lamports: u64)
        requires
            old(self)@.records.contains_key(address@),
            old(self)@.records[address@].is_open(),
        ensures
            final(self)@ == old(self)@.released(address@),
            lamports == old(self)@.held(address@),
            final(self)@.supply() + lamports == old(self)@.supply(),
    {
        proof {
            use_type_invariant(&*self);
            assert(self@.record_wf(address@));
        }
        let ghost before = self@;
        let Ledger { program_id, allow_reuse, wallets, mut records, supply } = self.take();
        let found = find_record(&records, address);
        let i = found.unwrap();
        proof {
            lemma_record_found(records@, i as int);
        }
        let record = records[i];
        if allow_reuse {
            proof {
                lemma_without_record(before, address@);
                lemma_record_remove(records@, i as int);
            }
            records.remove(i);
        } else {
            let mark = OpenAccount {
                address: record.address,
                authority: record.authority,
                bump: record.bump,
                lamports: 0,
                discriminator: CLOSED_ACCOUNT_DISCRIMINATOR,
            };
            proof {
                lemma_tags_differ();
                assert(mark@ == record@.closed());
                lemma_with_record(before, mark@);
                lemma_record_set(records@, i as int, mark);
            }
            records.set(i, mark);
        }
        *self = Ledger { program_id, allow_reuse, wallets, records, supply: supply - record.lamports };
        record.lamports
    }

    /// Puts `lamports` new units into the wallet of `key`, unless the supply
    /// would then no longer fit a balance: then nothing changes and the
    /// answer is `false`.
    pub fn deposit(&mut self, key: &Pubkey, lamports: u64) -> (done: bool)
        ensures
            done == (old(self)@.supply() + lamports <= u64::MAX),
            done ==> final(self)@ == old(self)@.credited(key@, lamports as nat),
            done ==> final(self)@.supply() == old(self)@.supply() + lamports,
            !done ==> final(self)@ == old(self)@,
    {
        proof {
            use_type_invariant(&*self);
        }
        if lamports <= u64::MAX - self.supply {
            self.credit(key, lamports);
            true
        } else {
            false
        }
    }
}

} // verus!
