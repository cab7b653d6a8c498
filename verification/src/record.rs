//! The record that an owner opens and closes.

use vstd::prelude::*;
use crate::pubkey::Pubkey;

verus! {

/// The tag at the head of a record that is open.
pub const ACCOUNT_DISCRIMINATOR: [u8; 8] = [72, 203, 2, 61, 97, 126, 53, 157];

/// The tag that replaces it when the record is closed.
pub const CLOSED_ACCOUNT_DISCRIMINATOR: [u8; 8] = [255, 255, 255, 255, 255, 255, 255, 255];

/// A record: storage at a derived address, tagged with its owner, which
/// holds a balance in custody until the owner closes it.
#[derive(Clone, Copy, Debug)]
pub struct OpenAccount {
    /// Where the record lives.
    pub address: Pubkey,
    /// The owner: the only key that may close the record.
    pub authority: Pubkey,
    /// The nonce under which the address was derived.
    pub bump: u8,
    /// The balance held in custody.
    pub lamports: u64,
    /// The tag that tells an open record from a closed one.
    pub discriminator: [u8; 8],
}

/// The mathematical value of a record.
pub struct RecordView {
    pub address: Seq<u8>,
    pub authority: Seq<u8>,
    pub bump: u8,
    pub lamports: nat,
    pub discriminator: Seq<u8>,
}

impl RecordView {
    /// The record that `open` writes.
    pub open spec fn opened(address: Seq<u8>, authority: Seq<u8>, bump: u8, lamports: nat) -> RecordView {
        RecordView { address, authority, bump, lamports, discriminator: ACCOUNT_DISCRIMINATOR@ }
    }

    pub open spec fn is_open(self) -> bool {
        self.discriminator == ACCOUNT_DISCRIMINATOR@
    }

    pub open spec fn is_closed(self) -> bool {
        self.discriminator == CLOSED_ACCOUNT_DISCRIMINATOR@
    }

    /// What is left of the record once it is closed: its balance is gone
    /// and its tag says so.
    pub open spec fn closed(self) -> RecordView {
        RecordView { lamports: 0, discriminator: CLOSED_ACCOUNT_DISCRIMINATOR@, ..self }
    }
}

impl View for OpenAccount {
    type V = RecordView;

    open spec fn view(&self) -> RecordView {
        RecordView {
            address: self.address@,
            authority: self.authority@,
            bump: self.bump,
            lamports: self.lamports as nat,
            discriminator: self.discriminator@,
        }
    }
}

/// No tag is both that of an open record and that of a closed one.
pub proof fn lemma_tags_differ()
    ensures
        ACCOUNT_DISCRIMINATOR@ != CLOSED_ACCOUNT_DISCRIMINATOR@,
        ACCOUNT_DISCRIMINATOR@.len() == 8,
        CLOSED_ACCOUNT_DISCRIMINATOR@.len() == 8,
{
    assert(ACCOUNT_DISCRIMINATOR@[0] == 72);
    assert(CLOSED_ACCOUNT_DISCRIMINATOR@[0] == 255);
}

fn same_tag(a: &[u8; 8], b: &[u8; 8]) -> (r: bool)
    ensures
        r == (a@ == b@),
{
    let mut i: usize = 0;
    while i < 8
        invariant
            i <= 8,
            forall|j: int| 0 <= j < i ==> a[j] == b[j],
        decreases 8 - i,
    {
        if a[i] != b[i] {
            return false;
        }
        i += 1;
    }
    assert(a@ =~= b@);
    true
}

impl PartialEq for OpenAccount {
    fn eq(&self, other: &Self) -> (r: bool) {
        self.address == other.address && self.authority == other.authority && self.bump
            == other.bump && self.lamports == other.lamports && same_tag(
            &self.discriminator,
            &other.discriminator,
        )
    }
}

impl Eq for OpenAccount {

}

impl vstd::std_specs::cmp::PartialEqSpecImpl for OpenAccount {
    open spec fn obeys_eq_spec() -> bool {
        true
    }

    open spec fn eq_spec(&self, other: &Self) -> bool {
        self@ == other@
    }
}

impl OpenAccount {
    /// Whether the record is open.
    pub fn is_open(&self) -> (r: bool)
        ensures
            r == self@.is_open(),
    {
        same_tag(&self.discriminator, &ACCOUNT_DISCRIMINATOR)
    }

    /// Whether the record was closed.
    pub fn is_closed(&self) -> (r: bool)
        ensures
            r == self@.is_closed(),
    {
        same_tag(&self.discriminator, &CLOSED_ACCOUNT_DISCRIMINATOR)
    }
}

} // verus!
