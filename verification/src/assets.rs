//! The assets on the external ledger that back the tickets.

use crate::records::{Lookup, Record};
use vstd::prelude::*;

verus! {

/// An asset: the tokens of one ticket type on the external ledger.
#[derive(Clone, Debug, PartialEq, Eq)]
pub struct Asset {
    pub id: u128,
    /// The asset's identity on the external ledger, once it has been
    /// assigned one.
    pub blockchain_asset_id: Option<String>,
}

impl Record for Asset {
    open spec fn answers(&self, q: Lookup) -> bool {
        match q {
            Lookup::Id(id) => self.id == id,
            Lookup::DefaultOf(_) => false,
        }
    }

    fn is_answer(&self, q: &Lookup) -> (b: bool) {
        match *q {
            Lookup::Id(id) => self.id == id,
            Lookup::DefaultOf(_) => false,
        }
    }
}

} // verus!
