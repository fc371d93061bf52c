//! What the host runtime hands to an operation: identities, and accounts with
//! their storage.

use crate::codec::same_bytes;
use vstd::prelude::*;

verus! {

/// An identity of the host ledger: thirty-two bytes.
#[derive(Clone, Copy, Debug, Eq)]
pub struct Pubkey {
    pub bytes: [u8; 32],
}

impl View for Pubkey {
    type V = Seq<u8>;

    open spec fn view(&self) -> Seq<u8> {
        self.bytes@
    }
}

impl PartialEq for Pubkey {
    fn eq(&self, other: &Pubkey) -> (same: bool) {
        same_bytes(self.bytes.as_slice(), other.bytes.as_slice())
    }
}

impl vstd::std_specs::cmp::PartialEqSpecImpl for Pubkey {
    open spec fn obeys_eq_spec() -> bool {
        true
    }

    open spec fn eq_spec(&self, other: &Pubkey) -> bool {
        self@ == other@
    }
}

impl Pubkey {
    /// The identity that `bytes` spell.
    pub fn new_from_array(bytes: [u8; 32]) -> (key: Pubkey)
        ensures
            key@ == bytes@,
    {
        Pubkey { bytes }
    }

    /// The bytes of the identity.
    pub fn to_bytes(&self) -> (bytes: [u8; 32])
        ensures
            bytes@ == self@,
    {
        self.bytes
    }
}

/// An account as an operation sees it: who it is, whether it signed, which
/// program its storage belongs to, and the stored bytes.
#[derive(Clone, Debug)]
pub struct AccountInfo {
    pub key: Pubkey,
    pub is_signer: bool,
    pub owner: Pubkey,
    pub data: Vec<u8>,
}

/// An account as mathematics.
pub struct AccountView {
    pub key: Seq<u8>,
    pub is_signer: bool,
    pub owner: Seq<u8>,
    pub data: Seq<u8>,
}

impl View for AccountInfo {
    type V = AccountView;

    open spec fn view(&self) -> AccountView {
        AccountView {
            key: self.key@,
            is_signer: self.is_signer,
            owner: self.owner@,
            data: self.data@,
        }
    }
}

impl AccountView {
    /// The account with `data` stored in place of what it held.
    pub open spec fn with_data(self, data: Seq<u8>) -> AccountView {
        AccountView { data, ..self }
    }
}

/// The accounts of an operation as mathematics, in their order.
pub open spec fn accounts_view(accounts: Seq<AccountInfo>) -> Seq<AccountView> {
    accounts.map_values(|account: AccountInfo| account@)
}

impl AccountInfo {
    /// Whether nothing is stored in the account.
    pub fn data_is_empty(&self) -> (empty: bool)
        ensures
            empty == (self@.data.len() == 0),
    {
        self.data.len() == 0
    }
}

/// Stores `data` in the account at `index`, in place of what it held.
pub(crate) fn store(accounts: &mut Vec<AccountInfo>, index: usize, data: Vec<u8>)
    requires
        index < old(accounts)@.len(),
    ensures
        final(accounts)@.len() == old(accounts)@.len(),
        accounts_view(final(accounts)@) == accounts_view(old(accounts)@).update(
            index as int,
            old(accounts)@[index as int]@.with_data(data@),
        ),
{
    accounts[index].data = data;
    assert(accounts_view(accounts@) =~= accounts_view(old(accounts)@).update(
        index as int,
        old(accounts)@[index as int]@.with_data(data@),
    ));
}

} // verus!
