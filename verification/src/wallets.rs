//! Wallets. Who owns a ticket is the wallet named on the ticket instance;
//! every account has one default wallet.

use crate::records::{Lookup, Record};
use vstd::prelude::*;

verus! {

/// A wallet: a key pair on the external ledger, held for an account.
#[derive(Clone, Debug, PartialEq, Eq)]
pub struct Wallet {
    pub id: u128,
    /// The account, a user or an organization, that the wallet belongs to.
    pub owner_id: u128,
    /// Whether this is the wallet that the account's tickets go to.
    pub is_default: bool,
    pub secret_key: String,
    pub public_key: String,
}

impl Record for Wallet {
    open spec fn answers(&self, q: Lookup) -> bool {
        match q {
            Lookup::Id(id) => self.id == id,
            Lookup::DefaultOf(owner) => self.owner_id == owner && self.is_default,
        }
    }

    fn is_answer(&self, q: &Lookup) -> (b: bool) {
        match *q {
            Lookup::Id(id) => self.id == id,
            Lookup::DefaultOf(owner) => self.owner_id == owner && self.is_default,
        }
    }
}

} // verus!
