//! The inventory ledger: one record per ticket unit and the rules by which
//! a unit moves between available, reserved, purchased and redeemed.
//!
//! Every change to the ledger is one rewrite: the first `limit` instances
//! that a [`Selector`] matches, in ledger order, each take a [`Change`].
//! Reserving, releasing, committing a purchase, sweeping expired holds and
//! the transfer operations are all stated as such a rewrite.

use crate::errors::BusinessError;
use crate::records::{first, position, Lookup, Record};
use vstd::prelude::*;

verus! {

/// Where a ticket unit stands in its life.
#[derive(Clone, Copy, Debug, PartialEq, Eq, Structural)]
pub enum TicketInstanceStatus {
    Available,
    Reserved,
    Purchased,
    Redeemed,
}

/// One ticket unit.
#[derive(Clone, Debug, PartialEq, Eq)]
pub struct TicketInstance {
    pub id: u128,
    pub ticket_type_id: u128,
    /// The asset on the external ledger that backs this unit.
    pub asset_id: u128,
    /// The unit's token within its asset.
    pub token_id: u64,
    /// The wallet that owns the unit.
    pub wallet_id: u128,
    /// The allotment that the unit is set aside for: it is on offer only to
    /// buyers who come with the allotment's redemption code.
    pub allotment_id: Option<u128>,
    pub status: TicketInstanceStatus,
    /// The order item that holds the unit, while reserved or purchased.
    pub order_item_id: Option<u128>,
    /// The instant at which a reservation lapses.
    pub reserved_until: Option<i64>,
    /// The key by which the ticket is redeemed at the door, once it has been
    /// given one.
    pub redeem_key: Option<String>,
    /// The transfer authorization that the unit is bound to, if any.
    pub transfer_key: Option<u128>,
    pub transfer_expiry_date: Option<i64>,
}

impl TicketInstance {
    /// The record's own invariant: an order item is linked exactly while the
    /// unit is reserved or purchased, a reservation expiry is set exactly
    /// while it is reserved, and only a purchased unit is bound to a transfer,
    /// key and expiry together.
    pub open spec fn wf(self) -> bool {
        &&& self.order_item_id is Some <==> (self.status == TicketInstanceStatus::Reserved
            || self.status == TicketInstanceStatus::Purchased)
        &&& self.reserved_until is Some <==> self.status == TicketInstanceStatus::Reserved
        &&& self.transfer_key is Some ==> self.status == TicketInstanceStatus::Purchased
        &&& self.transfer_key is Some <==> self.transfer_expiry_date is Some
    }

    /// A unit fresh from the mint: available, on offer to everybody, held by
    /// nobody.
    pub fn new(id: u128, ticket_type_id: u128, asset_id: u128, token_id: u64, wallet_id: u128) -> (t:
        TicketInstance)
        ensures
            t == (TicketInstance {
                id,
                ticket_type_id,
                asset_id,
                token_id,
                wallet_id,
                allotment_id: None,
                status: TicketInstanceStatus::Available,
                order_item_id: None,
                reserved_until: None,
                redeem_key: None,
                transfer_key: None,
                transfer_expiry_date: None,
            }),
            t.wf(),
    {
        TicketInstance {
            id,
            ticket_type_id,
            asset_id,
            token_id,
            wallet_id,
            allotment_id: None,
            status: TicketInstanceStatus::Available,
            order_item_id: None,
            reserved_until: None,
            redeem_key: None,
            transfer_key: None,
            transfer_expiry_date: None,
        }
    }

    /// A copy of the instance.
    pub fn duplicate(&self) -> (r: TicketInstance)
        ensures
            r == *self,
    {
        TicketInstance {
            id: self.id,
            ticket_type_id: self.ticket_type_id,
            asset_id: self.asset_id,
            token_id: self.token_id,
            wallet_id: self.wallet_id,
            allotment_id: self.allotment_id,
            status: self.status,
            order_item_id: self.order_item_id,
            reserved_until: self.reserved_until,
            redeem_key: match &self.redeem_key {
                Some(key) => Some(key.clone()),
                None => None,
            },
            transfer_key: self.transfer_key,
            transfer_expiry_date: self.transfer_expiry_date,
        }
    }
}

/// Which instances a rewrite of the ledger looks for.
#[derive(Clone, Copy, Debug)]
pub enum Selector {
    /// Instances of one ticket type, whatever their status.
    Minted { ticket_type_id: u128 },
    /// Instances of one ticket type in one status.
    OfType { ticket_type_id: u128, status: TicketInstanceStatus },
    /// Available instances of one ticket type that are set aside for this
    /// allotment, or for none.
    OnOffer { ticket_type_id: u128, allotment_id: Option<u128> },
    /// Instances reserved for one order item.
    ReservedFor { order_item_id: u128 },
    /// Reserved instances whose hold ran out before `now`.
    Lapsed { now: i64 },
    /// Instances reserved for one order item whose hold has not run out at
    /// `now`.
    Holding { order_item_id: u128, now: i64 },
    /// Instances linked to one order item, reserved or purchased.
    HeldBy { order_item_id: u128 },
    /// Instances purchased for one order item that are in this wallet.
    PurchasedFor { order_item_id: u128, wallet_id: u128 },
    /// The purchased instance with this id.
    PurchasedTicket { id: u128 },
    /// The purchased instance with this id, if it is in this wallet.
    OwnedTicket { id: u128, wallet_id: u128 },
    /// Purchased instances in one wallet.
    InWallet { wallet_id: u128 },
    /// Instances bound to a transfer key.
    Keyed { transfer_key: u128 },
    /// The instance with this id, whatever its status.
    Ticket { id: u128 },
    /// Instances in one wallet that are bound to a transfer key and whose
    /// binding has not run out at `now`.
    Bound { transfer_key: u128, wallet_id: u128, now: i64 },
}

/// What a rewrite does to an instance it has selected.
#[derive(Clone, Copy, Debug)]
pub enum Change {
    /// Reserve for an order item until an instant.
    Hold { order_item_id: u128, until: i64 },
    /// Set aside for an allotment.
    SetAside { allotment_id: u128 },
    /// Back to available: order link, reservation and transfer binding
    /// cleared. A unit that is set aside for an allotment stays so.
    Free,
    /// From reserved to purchased: the hold is cleared, the order link stays.
    Purchase,
    /// Bind to a transfer authorization.
    Offer { transfer_key: u128, expiry: i64 },
    /// Move to another wallet and clear the transfer binding.
    Handover { wallet_id: u128 },
    /// From purchased to redeemed: the ticket has been used. The order link
    /// and the transfer binding are cleared.
    Redeem,
}

/// The selector of the instances of a ticket type that are on offer to a
/// buyer: with an allotment, the available ones that are set aside for it; with
/// none, the available ones that are set aside for nothing.
pub open spec fn available(ticket_type_id: u128, allotment_id: Option<u128>) -> Selector {
    Selector::OnOffer { ticket_type_id, allotment_id }
}

/// Whether `sel` matches the instance `t`.
pub open spec fn selects(sel: Selector, t: TicketInstance) -> bool {
    match sel {
        Selector::Minted { ticket_type_id } => t.ticket_type_id == ticket_type_id,
        Selector::OfType { ticket_type_id, status } => t.status == status && t.ticket_type_id
            == ticket_type_id,
        Selector::OnOffer { ticket_type_id, allotment_id } => t.status
            == TicketInstanceStatus::Available && t.ticket_type_id == ticket_type_id && t.allotment_id
            == allotment_id,
        Selector::ReservedFor { order_item_id } => t.status == TicketInstanceStatus::Reserved
            && t.order_item_id == Some(order_item_id),
        Selector::Lapsed { now } => t.status == TicketInstanceStatus::Reserved && (
        t.reserved_until matches Some(until) && until < now),
        Selector::Holding { order_item_id, now } => t.status == TicketInstanceStatus::Reserved
            && t.order_item_id == Some(order_item_id) && (t.reserved_until matches Some(until)
            && now <= until),
        Selector::HeldBy { order_item_id } => t.order_item_id == Some(order_item_id),
        Selector::PurchasedFor { order_item_id, wallet_id } => t.status
            == TicketInstanceStatus::Purchased && t.order_item_id == Some(order_item_id)
            && t.wallet_id == wallet_id,
        Selector::PurchasedTicket { id } => t.status == TicketInstanceStatus::Purchased && t.id
            == id,
        Selector::OwnedTicket { id, wallet_id } => t.status == TicketInstanceStatus::Purchased
            && t.id == id && t.wallet_id == wallet_id,
        Selector::InWallet { wallet_id } => t.status == TicketInstanceStatus::Purchased
            && t.wallet_id == wallet_id,
        Selector::Keyed { transfer_key } => t.transfer_key == Some(transfer_key),
        Selector::Ticket { id } => t.id == id,
        Selector::Bound { transfer_key, wallet_id, now } => t.transfer_key == Some(transfer_key)
            && t.wallet_id == wallet_id && (t.transfer_expiry_date matches Some(expiry) && now
            <= expiry),
    }
}

/// The instance `t` after the change `ch`.
pub open spec fn changed(t: TicketInstance, ch: Change) -> TicketInstance {
    match ch {
        Change::Hold { order_item_id, until } => TicketInstance {
            status: TicketInstanceStatus::Reserved,
            order_item_id: Some(order_item_id),
            reserved_until: Some(until),
            ..t
        },
        Change::SetAside { allotment_id } => TicketInstance { allotment_id: Some(allotment_id), ..t },
        Change::Free => TicketInstance {
            status: TicketInstanceStatus::Available,
            order_item_id: None,
            reserved_until: None,
            transfer_key: None,
            transfer_expiry_date: None,
            ..t
        },
        Change::Purchase => TicketInstance {
            status: TicketInstanceStatus::Purchased,
            reserved_until: None,
            ..t
        },
        Change::Offer { transfer_key, expiry } => TicketInstance {
            transfer_key: Some(transfer_key),
            transfer_expiry_date: Some(expiry),
            ..t
        },
        Change::Handover { wallet_id } => TicketInstance {
            wallet_id,
            transfer_key: None,
            transfer_expiry_date: None,
            ..t
        },
        Change::Redeem => TicketInstance {
            status: TicketInstanceStatus::Redeemed,
            order_item_id: None,
            transfer_key: None,
            transfer_expiry_date: None,
            ..t
        },
    }
}

/// How many of the first `n` instances of `s` the selector matches.
pub open spec fn count_before(s: Seq<TicketInstance>, sel: Selector, n: int) -> nat
    decreases n,
{
    if n <= 0 {
        0
    } else {
        count_before(s, sel, n - 1) + if selects(sel, s[n - 1]) {
            1nat
        } else {
            0nat
        }
    }
}

/// How many instances of `s` the selector matches.
pub open spec fn count(s: Seq<TicketInstance>, sel: Selector) -> nat {
    count_before(s, sel, s.len() as int)
}

/// Whether a rewrite with this selector and limit changes the instance at `i`:
/// it is matched, and fewer than `limit` matches stand before it.
pub open spec fn touched(s: Seq<TicketInstance>, sel: Selector, limit: int, i: int) -> bool {
    selects(sel, s[i]) && count_before(s, sel, i) < limit
}

/// The ledger after a rewrite: the first `limit` instances that `sel`
/// matches have taken the change `ch`, every other instance is as it was.
pub open spec fn rewritten(s: Seq<TicketInstance>, sel: Selector, limit: int, ch: Change) -> Seq<
    TicketInstance,
> {
    Seq::new(
        s.len(),
        |i: int|
            if touched(s, sel, limit, i) {
                changed(s[i], ch)
            } else {
                s[i]
            },
    )
}

/// The instances that a rewrite changes among the first `n` of `s`, in
/// ledger order and as they are after the change.
pub open spec fn taken_before(
    s: Seq<TicketInstance>,
    sel: Selector,
    limit: int,
    ch: Change,
    n: int,
) -> Seq<TicketInstance>
    decreases n,
{
    if n <= 0 {
        Seq::empty()
    } else if touched(s, sel, limit, n - 1) {
        taken_before(s, sel, limit, ch, n - 1).push(changed(s[n - 1], ch))
    } else {
        taken_before(s, sel, limit, ch, n - 1)
    }
}

/// All the instances that a rewrite changes, as they are after the change.
pub open spec fn taken(s: Seq<TicketInstance>, sel: Selector, limit: int, ch: Change) -> Seq<
    TicketInstance,
> {
    taken_before(s, sel, limit, ch, s.len() as int)
}

/// The instances among the first `n` of `s` that `sel` matches, in ledger
/// order.
pub open spec fn matching_before(s: Seq<TicketInstance>, sel: Selector, n: int) -> Seq<
    TicketInstance,
>
    decreases n,
{
    if n <= 0 {
        Seq::empty()
    } else if selects(sel, s[n - 1]) {
        matching_before(s, sel, n - 1).push(s[n - 1])
    } else {
        matching_before(s, sel, n - 1)
    }
}

/// The instances of `s` that `sel` matches, in ledger order.
pub open spec fn matching(s: Seq<TicketInstance>, sel: Selector) -> Seq<TicketInstance> {
    matching_before(s, sel, s.len() as int)
}

/// Whether the change `ch` may be made to what `sel` matches without
/// breaking an instance's invariant.
pub open spec fn fits(sel: Selector, ch: Change) -> bool {
    match ch {
        Change::Hold { .. } => sel is OnOffer,
        Change::SetAside { .. } => true,
        Change::Free => true,
        Change::Purchase => sel is ReservedFor,
        Change::Offer { .. } => sel is PurchasedTicket || sel is OwnedTicket || sel is InWallet,
        Change::Handover { .. } => true,
        Change::Redeem => sel is PurchasedTicket,
    }
}

/// A count never exceeds the number of instances looked at, and grows with it.
pub proof fn lemma_count_bounds(s: Seq<TicketInstance>, sel: Selector, m: int, n: int)
    requires
        0 <= m <= n,
    ensures
        count_before(s, sel, m) <= count_before(s, sel, n) <= count_before(s, sel, m) + (n - m),
        count_before(s, sel, n) <= n,
    decreases n,
{
    if n > m {
        lemma_count_bounds(s, sel, m, n - 1);
    } else if n > 0 {
        lemma_count_bounds(s, sel, n - 1, n - 1);
    }
}

/// A rewrite changes exactly `limit` instances, or all the matches if there
/// are fewer.
pub proof fn lemma_taken_len(s: Seq<TicketInstance>, sel: Selector, limit: int, ch: Change, n: int)
    requires
        0 <= n,
        0 <= limit,
    ensures
        taken_before(s, sel, limit, ch, n).len() == if count_before(s, sel, n) <= limit {
            count_before(s, sel, n) as int
        } else {
            limit
        },
    decreases n,
{
    if n > 0 {
        lemma_taken_len(s, sel, limit, ch, n - 1);
    }
}

/// A change that fits its selector keeps a well-formed instance well-formed.
pub proof fn lemma_change_keeps_wf(t: TicketInstance, sel: Selector, ch: Change)
    requires
        t.wf(),
        selects(sel, t),
        fits(sel, ch),
    ensures
        changed(t, ch).wf(),
        changed(t, ch).id == t.id,
        changed(t, ch).ticket_type_id == t.ticket_type_id,
{
}

/// One request to the ledger that moves instances between available,
/// reserved and purchased.
pub enum LedgerOp {
    /// Reserve so many available instances of a ticket type for an order item.
    Reserve {
        ticket_type_id: u128,
        quantity: i64,
        allotment_id: Option<u128>,
        order_item_id: u128,
        until: i64,
    },
    /// Release so many of the instances reserved for an order item.
    Release { order_item_id: u128, quantity: i64 },
    /// Turn what is reserved for an order item into purchased.
    Commit { order_item_id: u128 },
    /// Release every reservation whose hold ran out before an instant.
    Sweep { now: i64 },
    /// Take a purchased ticket back.
    Cancel { ticket_id: u128 },
}

/// The refusal that the request `op` meets on the ledger content `s`, if any.
pub open spec fn refusal(s: Seq<TicketInstance>, op: LedgerOp) -> Option<BusinessError> {
    match op {
        LedgerOp::Reserve { ticket_type_id, quantity, allotment_id, .. } => if quantity > count(
            s,
            available(ticket_type_id, allotment_id),
        ) {
            Some(BusinessError::InsufficientInventory)
        } else {
            None
        },
        LedgerOp::Release { order_item_id, quantity } => if quantity > count(
            s,
            Selector::ReservedFor { order_item_id },
        ) {
            Some(BusinessError::ReleaseExceedsReserved)
        } else {
            None
        },
        LedgerOp::Commit { .. } => None,
        LedgerOp::Sweep { .. } => None,
        LedgerOp::Cancel { ticket_id } => if count(s, Selector::PurchasedTicket { id: ticket_id })
            == 0 {
            Some(BusinessError::NoResults)
        } else {
            None
        },
    }
}

/// The ledger content after the request `op`: as it was if the request is
/// refused, else rewritten.
pub open spec fn after(s: Seq<TicketInstance>, op: LedgerOp) -> Seq<TicketInstance> {
    if refusal(s, op) is Some {
        s
    } else {
        match op {
            LedgerOp::Reserve { ticket_type_id, quantity, allotment_id, order_item_id, until } => rewritten(
                s,
                available(ticket_type_id, allotment_id),
                quantity as int,
                Change::Hold { order_item_id, until },
            ),
            LedgerOp::Release { order_item_id, quantity } => rewritten(
                s,
                Selector::ReservedFor { order_item_id },
                quantity as int,
                Change::Free,
            ),
            LedgerOp::Commit { order_item_id } => rewritten(
                s,
                Selector::ReservedFor { order_item_id },
                s.len() as int,
                Change::Purchase,
            ),
            LedgerOp::Sweep { now } => rewritten(
                s,
                Selector::Lapsed { now },
                s.len() as int,
                Change::Free,
            ),
            LedgerOp::Cancel { ticket_id } => rewritten(
                s,
                Selector::PurchasedTicket { id: ticket_id },
                s.len() as int,
                Change::Free,
            ),
        }
    }
}

/// What an attempt to redeem a ticket is answered with.
#[derive(Clone, Copy, Debug, PartialEq, Eq, Structural)]
pub enum RedeemResults {
    TicketRedeemSuccess,
    TicketAlreadyRedeemed,
    TicketInvalid,
}

impl Record for TicketInstance {
    open spec fn answers(&self, q: Lookup) -> bool {
        match q {
            Lookup::Id(id) => self.id == id,
            Lookup::DefaultOf(_) => false,
        }
    }

    fn is_answer(&self, q: &Lookup) -> (b: bool) {
        match *q {
            Lookup::Id(id) => self.id == id,
            Lookup::DefaultOf(_) => false,
        }
    }
}

/// What an attempt to redeem the ticket with this id by this key is
/// answered with.
pub open spec fn redemption(s: Seq<TicketInstance>, ticket_id: u128, key: Seq<char>) -> Result<
    RedeemResults,
    BusinessError,
> {
    match first(s, Lookup::Id(ticket_id)) {
        None => Err(BusinessError::NoResults),
        Some(i) => if s[i].status == TicketInstanceStatus::Redeemed {
            Ok(RedeemResults::TicketAlreadyRedeemed)
        } else if s[i].status == TicketInstanceStatus::Purchased && (s[i].redeem_key matches Some(k)
            && k@ == key) {
            Ok(RedeemResults::TicketRedeemSuccess)
        } else {
            Ok(RedeemResults::TicketInvalid)
        },
    }
}

/// The ledger: every ticket unit that was minted, in the order of minting.
#[derive(Clone, Debug, PartialEq, Eq)]
pub struct Ledger {
    tickets: Vec<TicketInstance>,
}

impl View for Ledger {
    type V = Seq<TicketInstance>;

    closed spec fn view(&self) -> Seq<TicketInstance> {
        self.tickets@
    }
}

/// Whether `s` is a valid content for a ledger: every instance is
/// well-formed and no id occurs twice.
pub open spec fn ledger_wf(s: Seq<TicketInstance>) -> bool {
    &&& forall|i: int| 0 <= i < s.len() ==> (#[trigger] s[i]).wf()
    &&& forall|i: int, j: int| 0 <= i < j < s.len() ==> (#[trigger] s[i]).id != (#[trigger] s[j]).id
}

/// A rewrite whose change fits its selector keeps the ledger valid.
pub proof fn lemma_rewrite_keeps_wf(s: Seq<TicketInstance>, sel: Selector, limit: int, ch: Change)
    requires
        ledger_wf(s),
        fits(sel, ch),
    ensures
        ledger_wf(rewritten(s, sel, limit, ch)),
{
    let r = rewritten(s, sel, limit, ch);
    assert forall|i: int| 0 <= i < r.len() implies (#[trigger] r[i]).wf() && r[i].id == s[i].id by {
        assert(s[i].wf());
        if touched(s, sel, limit, i) {
            lemma_change_keeps_wf(s[i], sel, ch);
        }
    }
    assert forall|i: int, j: int| 0 <= i < j < r.len() implies (#[trigger] r[i]).id != (
    #[trigger] r[j]).id by {
        assert(r[i].id == s[i].id);
        assert(r[j].id == s[j].id);
    }
}

/// Whether `sel` matches `t`, computed.
fn is_selected(sel: &Selector, t: &TicketInstance) -> (b: bool)
    ensures
        b == selects(*sel, *t),
{
    match *sel {
        Selector::Minted { ticket_type_id } => t.ticket_type_id == ticket_type_id,
        Selector::OfType { ticket_type_id, status } => t.status == status && t.ticket_type_id
            == ticket_type_id,
        Selector::OnOffer { ticket_type_id, allotment_id } => t.status
            == TicketInstanceStatus::Available && t.ticket_type_id == ticket_type_id && match (
            t.allotment_id,
            allotment_id,
        ) {
            (Some(a), Some(b)) => a == b,
            (None, None) => true,
            _ => false,
        },
        Selector::ReservedFor { order_item_id } => t.status == TicketInstanceStatus::Reserved
            && match t.order_item_id {
            Some(item) => item == order_item_id,
            None => false,
        },
        Selector::Lapsed { now } => t.status == TicketInstanceStatus::Reserved && match t.reserved_until {
            Some(until) => until < now,
            None => false,
        },
        Selector::Holding { order_item_id, now } => t.status == TicketInstanceStatus::Reserved
            && match t.order_item_id {
            Some(item) => item == order_item_id,
            None => false,
        } && match t.reserved_until {
            Some(until) => now <= until,
            None => false,
        },
        Selector::HeldBy { order_item_id } => match t.order_item_id {
            Some(item) => item == order_item_id,
            None => false,
        },
        Selector::PurchasedFor { order_item_id, wallet_id } => t.status
            == TicketInstanceStatus::Purchased && t.wallet_id == wallet_id && match t.order_item_id {
            Some(item) => item == order_item_id,
            None => false,
        },
        Selector::PurchasedTicket { id } => t.status == TicketInstanceStatus::Purchased && t.id
            == id,
        Selector::OwnedTicket { id, wallet_id } => t.status == TicketInstanceStatus::Purchased
            && t.id == id && t.wallet_id == wallet_id,
        Selector::InWallet { wallet_id } => t.status == TicketInstanceStatus::Purchased
            && t.wallet_id == wallet_id,
        Selector::Keyed { transfer_key } => match t.transfer_key {
            Some(key) => key == transfer_key,
            None => false,
        },
        Selector::Ticket { id } => t.id == id,
        Selector::Bound { transfer_key, wallet_id, now } => t.wallet_id == wallet_id && match t.transfer_key {
            Some(key) => key == transfer_key,
            None => false,
        } && match t.transfer_expiry_date {
            Some(expiry) => now <= expiry,
            None => false,
        },
    }
}

/// `t` after the change `ch`, computed.
fn apply_change(t: &TicketInstance, ch: Change) -> (r: TicketInstance)
    ensures
        r == changed(*t, ch),
{
    let mut r = t.duplicate();
    match ch {
        Change::Hold { order_item_id, until } => {
            r.status = TicketInstanceStatus::Reserved;
            r.order_item_id = Some(order_item_id);
            r.reserved_until = Some(until);
        },
        Change::SetAside { allotment_id } => {
            r.allotment_id = Some(allotment_id);
        },
        Change::Free => {
            r.status = TicketInstanceStatus::Available;
            r.order_item_id = None;
            r.reserved_until = None;
            r.transfer_key = None;
            r.transfer_expiry_date = None;
        },
        Change::Purchase => {
            r.status = TicketInstanceStatus::Purchased;
            r.reserved_until = None;
        },
        Change::Offer { transfer_key, expiry } => {
            r.transfer_key = Some(transfer_key);
            r.transfer_expiry_date = Some(expiry);
        },
        Change::Handover { wallet_id } => {
            r.wallet_id = wallet_id;
            r.transfer_key = None;
            r.transfer_expiry_date = None;
        },
        Change::Redeem => {
            r.status = TicketInstanceStatus::Redeemed;
            r.order_item_id = None;
            r.transfer_key = None;
            r.transfer_expiry_date = None;
        },
    }
    r
}

impl Ledger {
    /// Whether the ledger is valid: see [`ledger_wf`].
    pub open spec fn wf(&self) -> bool {
        ledger_wf(self@)
    }

    /// An empty ledger.
    pub fn new() -> (l: Ledger)
        ensures
            l@ == Seq::<TicketInstance>::empty(),
            l.wf(),
    {
        Ledger { tickets: Vec::new() }
    }

    /// A copy of the ledger.
    pub fn snapshot(&self) -> (l: Ledger)
        ensures
            l@ == self@,
    {
        let mut tickets: Vec<TicketInstance> = Vec::new();
        let mut i: usize = 0;
        while i < self.tickets.len()
            invariant
                i <= self.tickets.len(),
                tickets@ == self.tickets@.take(i as int),
            decreases self.tickets.len() - i,
        {
            tickets.push(self.tickets[i].duplicate());
            assert(self.tickets@.take(i + 1) == self.tickets@.take(i as int).push(
                self.tickets@[i as int],
            ));
            i += 1;
        }
        assert(self.tickets@.take(self.tickets@.len() as int) == self.tickets@);
        Ledger { tickets }
    }

    /// All the instances, in the order of minting.
    pub fn tickets(&self) -> (r: &Vec<TicketInstance>)
        ensures
            r@ == self@,
    {
        &self.tickets
    }

    /// How many instances the ledger holds.
    pub fn len(&self) -> (n: usize)
        ensures
            n == self@.len(),
    {
        self.tickets.len()
    }

    /// How many instances `sel` matches.
    pub fn count(&self, sel: &Selector) -> (n: usize)
        ensures
            n == count(self@, *sel),
    {
        let mut n: usize = 0;
        let mut i: usize = 0;
        while i < self.tickets.len()
            invariant
                i <= self.tickets.len(),
                n == count_before(self.tickets@, *sel, i as int),
                n <= i,
            decreases self.tickets.len() - i,
        {
            if is_selected(sel, &self.tickets[i]) {
                n += 1;
            }
            i += 1;
        }
        n
    }

    /// Rewrites the ledger: the first `limit` instances that `sel` matches
    /// take the change `ch`. Returns the changed instances. Every change to
    /// the ledger goes through here, and only the operations of this crate can
    /// ask for one.
    pub(crate) fn rewrite(&mut self, sel: &Selector, limit: usize, ch: Change) -> (out: Vec<TicketInstance>)
        ensures
            final(self)@ == rewritten(old(self)@, *sel, limit as int, ch),
            out@ == taken(old(self)@, *sel, limit as int, ch),
            old(self).wf() && fits(*sel, ch) ==> final(self).wf(),
    {
        let ghost s = self.tickets@;
        let mut out: Vec<TicketInstance> = Vec::new();
        let mut seen: usize = 0;
        let mut i: usize = 0;
        while i < self.tickets.len()
            invariant
                i <= self.tickets.len(),
                self.tickets@.len() == s.len(),
                seen == count_before(s, *sel, i as int),
                seen <= i,
                out@ == taken_before(s, *sel, limit as int, ch, i as int),
                forall|j: int| 0 <= j < i ==> #[trigger] self.tickets@[j] == rewritten(s, *sel, limit as int, ch)[j],
                forall|j: int| i <= j < s.len() ==> #[trigger] self.tickets@[j] == s[j],
            decreases self.tickets.len() - i,
        {
            if is_selected(sel, &self.tickets[i]) {
                if seen < limit {
                    let r = apply_change(&self.tickets[i], ch);
                    out.push(r.duplicate());
                    self.tickets.set(i, r);
                }
                seen += 1;
            }
            i += 1;
        }
        proof {
            assert(self.tickets@ =~= rewritten(s, *sel, limit as int, ch));
            if ledger_wf(s) && fits(*sel, ch) {
                lemma_rewrite_keeps_wf(s, *sel, limit as int, ch);
            }
        }
        out
    }
}

/// With a limit of zero or less a rewrite changes nothing.
pub proof fn lemma_rewrite_nothing(s: Seq<TicketInstance>, sel: Selector, limit: int, ch: Change, n: int)
    requires
        limit <= 0,
    ensures
        rewritten(s, sel, limit, ch) == s,
        taken_before(s, sel, limit, ch, n) == Seq::<TicketInstance>::empty(),
    decreases n,
{
    assert(rewritten(s, sel, limit, ch) =~= s);
    if n > 0 {
        lemma_rewrite_nothing(s, sel, limit, ch, n - 1);
    }
}

impl Ledger {
    /// The instances that `sel` matches, in ledger order.
    pub fn select(&self, sel: &Selector) -> (out: Vec<TicketInstance>)
        ensures
            out@ == matching(self@, *sel),
    {
        let mut out: Vec<TicketInstance> = Vec::new();
        let mut i: usize = 0;
        while i < self.tickets.len()
            invariant
                i <= self.tickets.len(),
                out@ == matching_before(self.tickets@, *sel, i as int),
            decreases self.tickets.len() - i,
        {
            if is_selected(sel, &self.tickets[i]) {
                out.push(self.tickets[i].duplicate());
            }
            i += 1;
        }
        out
    }

    /// Mints one unit: a new available instance at the end of the ledger.
    /// Refused with `PersistenceError`, and nothing changes, exactly when the
    /// id is taken.
    pub fn mint(
        &mut self,
        id: u128,
        ticket_type_id: u128,
        asset_id: u128,
        token_id: u64,
        wallet_id: u128,
    ) -> (r: Result<(), BusinessError>)
        ensures
            r is Err <==> count(old(self)@, Selector::Ticket { id }) > 0,
            r is Err ==> r == Err::<(), BusinessError>(BusinessError::PersistenceError) && final(self)@ == old(self)@,
            r is Ok ==> final(self)@ == old(self)@.push(
                (TicketInstance {
                    id,
                    ticket_type_id,
                    asset_id,
                    token_id,
                    wallet_id,
                    allotment_id: None,
                    status: TicketInstanceStatus::Available,
                    order_item_id: None,
                    reserved_until: None,
                    redeem_key: None,
                    transfer_key: None,
                    transfer_expiry_date: None,
                }),
            ),
            old(self).wf() ==> final(self).wf(),
    {
        let sel = Selector::Ticket { id };
        if self.count(&sel) > 0 {
            return Err(BusinessError::PersistenceError);
        }
        let ghost s = self.tickets@;
        let t = TicketInstance::new(id, ticket_type_id, asset_id, token_id, wallet_id);
        self.tickets.push(t);
        proof {
            if ledger_wf(s) {
                assert forall|i: int| 0 <= i < s.len() implies (#[trigger] s[i]).id != id by {
                    if s[i].id == id {
                        lemma_count_positive(s, sel, i);
                    }
                }
                assert(ledger_wf(s.push(t)));
            }
        }
        Ok(())
    }

    /// Reserves `quantity` instances of a ticket type for an order item: the
    /// first ones in ledger order that are on offer to the buyer, each held
    /// until `until`. With an allotment, the instances on offer are the available
    /// ones that are set aside for it; with none, the available ones that are
    /// set aside for nothing.
    ///
    /// Refused with `InsufficientInventory`, and nothing changes, exactly
    /// when fewer than `quantity` instances are on offer. A quantity of zero
    /// or less reserves nothing. Returns the reserved instances.
    pub fn reserve(
        &mut self,
        ticket_type_id: u128,
        quantity: i64,
        allotment_id: Option<u128>,
        order_item_id: u128,
        until: i64,
    ) -> (r: Result<Vec<TicketInstance>, BusinessError>)
        ensures
            final(self)@ == after(
                old(self)@,
                LedgerOp::Reserve { ticket_type_id, quantity, allotment_id, order_item_id, until },
            ),
            r is Err <==> quantity > count(old(self)@, available(ticket_type_id, allotment_id)),
            r matches Err(e) ==> e == BusinessError::InsufficientInventory && final(self)@ == old(self)@,
            r matches Ok(out) ==> final(self)@ == rewritten(
                old(self)@,
                available(ticket_type_id, allotment_id),
                quantity as int,
                Change::Hold { order_item_id, until },
            ) && out@ == taken(
                old(self)@,
                available(ticket_type_id, allotment_id),
                quantity as int,
                Change::Hold { order_item_id, until },
            ) && out@.len() == if quantity > 0 {
                quantity as int
            } else {
                0
            },
            old(self).wf() ==> final(self).wf(),
    {
        let sel = Selector::OnOffer { ticket_type_id, allotment_id };
        let ch = Change::Hold { order_item_id, until };
        let ghost s = self.tickets@;
        if quantity <= 0 {
            proof {
                lemma_rewrite_nothing(s, sel, quantity as int, ch, s.len() as int);
            }
            return Ok(Vec::new());
        }
        let on_offer = self.count(&sel);
        if quantity as u64 > on_offer as u64 {
            return Err(BusinessError::InsufficientInventory);
        }
        let out = self.rewrite(&sel, quantity as usize, ch);
        proof {
            lemma_taken_len(s, sel, quantity as int, ch, s.len() as int);
        }
        Ok(out)
    }

    /// Sets `quantity` instances of a ticket type aside for an allotment: the first
    /// ones in ledger order that are available and set aside for nothing.
    /// From then on they are on offer only with the allotment.
    ///
    /// Refused with `InsufficientInventory`, and nothing changes, exactly
    /// when fewer than `quantity` such instances are there. A quantity of
    /// zero or less sets nothing aside. Returns the instances set aside.
    pub fn set_aside(&mut self, ticket_type_id: u128, quantity: i64, allotment_id: u128) -> (r: Result<
        Vec<TicketInstance>,
        BusinessError,
    >)
        ensures
            r is Err <==> quantity > count(old(self)@, available(ticket_type_id, None)),
            r matches Err(e) ==> e == BusinessError::InsufficientInventory && final(self)@ == old(self)@,
            r matches Ok(out) ==> final(self)@ == rewritten(
                old(self)@,
                available(ticket_type_id, None),
                quantity as int,
                Change::SetAside { allotment_id },
            ) && out@ == taken(
                old(self)@,
                available(ticket_type_id, None),
                quantity as int,
                Change::SetAside { allotment_id },
            ) && out@.len() == if quantity > 0 {
                quantity as int
            } else {
                0
            },
            old(self).wf() ==> final(self).wf(),
    {
        let sel = Selector::OnOffer { ticket_type_id, allotment_id: None };
        let ch = Change::SetAside { allotment_id };
        let ghost s = self.tickets@;
        if quantity <= 0 {
            proof {
                lemma_rewrite_nothing(s, sel, quantity as int, ch, s.len() as int);
            }
            return Ok(Vec::new());
        }
        let on_offer = self.count(&sel);
        if quantity as u64 > on_offer as u64 {
            return Err(BusinessError::InsufficientInventory);
        }
        let out = self.rewrite(&sel, quantity as usize, ch);
        proof {
            lemma_taken_len(s, sel, quantity as int, ch, s.len() as int);
        }
        Ok(out)
    }

    /// Releases `quantity` of the instances reserved for an order item, the
    /// first ones in ledger order, back to available.
    ///
    /// Refused with `ReleaseExceedsReserved`, and nothing changes, exactly
    /// when `quantity` exceeds the number of instances reserved for the item.
    /// A quantity of zero or less releases nothing. Returns the released
    /// instances.
    pub fn release_tickets(&mut self, order_item_id: u128, quantity: i64) -> (r: Result<
        Vec<TicketInstance>,
        BusinessError,
    >)
        ensures
            final(self)@ == after(old(self)@, LedgerOp::Release { order_item_id, quantity }),
            r is Err <==> quantity > count(old(self)@, Selector::ReservedFor { order_item_id }),
            r matches Err(e) ==> e == BusinessError::ReleaseExceedsReserved && final(self)@ == old(self)@,
            r matches Ok(out) ==> final(self)@ == rewritten(
                old(self)@,
                Selector::ReservedFor { order_item_id },
                quantity as int,
                Change::Free,
            ) && out@ == taken(
                old(self)@,
                Selector::ReservedFor { order_item_id },
                quantity as int,
                Change::Free,
            ) && out@.len() == if quantity > 0 {
                quantity as int
            } else {
                0
            },
            old(self).wf() ==> final(self).wf(),
    {
        let sel = Selector::ReservedFor { order_item_id };
        let ghost s = self.tickets@;
        if quantity <= 0 {
            proof {
                lemma_rewrite_nothing(s, sel, quantity as int, Change::Free, s.len() as int);
            }
            return Ok(Vec::new());
        }
        let reserved = self.count(&sel);
        if quantity as u64 > reserved as u64 {
            return Err(BusinessError::ReleaseExceedsReserved);
        }
        let out = self.rewrite(&sel, quantity as usize, Change::Free);
        proof {
            lemma_taken_len(s, sel, quantity as int, Change::Free, s.len() as int);
        }
        Ok(out)
    }

    /// Turns every instance reserved for an order item into a purchased one.
    /// An item with nothing reserved is left as it is, so a second call
    /// changes nothing. Returns the instances that were turned.
    pub fn commit_purchase(&mut self, order_item_id: u128) -> (out: Vec<TicketInstance>)
        ensures
            final(self)@ == after(old(self)@, LedgerOp::Commit { order_item_id }),
            final(self)@ == rewritten(
                old(self)@,
                Selector::ReservedFor { order_item_id },
                old(self)@.len() as int,
                Change::Purchase,
            ),
            out@ == taken(
                old(self)@,
                Selector::ReservedFor { order_item_id },
                old(self)@.len() as int,
                Change::Purchase,
            ),
            out@.len() == count(old(self)@, Selector::ReservedFor { order_item_id }),
            old(self).wf() ==> final(self).wf(),
    {
        let sel = Selector::ReservedFor { order_item_id };
        let ghost s = self.tickets@;
        let n = self.tickets.len();
        let out = self.rewrite(&sel, n, Change::Purchase);
        proof {
            lemma_taken_len(s, sel, n as int, Change::Purchase, s.len() as int);
            lemma_count_bounds(s, sel, 0, s.len() as int);
        }
        out
    }

    /// The sweep: every reservation whose hold ran out before `now` is
    /// released, by the same rewrite as a release on request. Returns the
    /// released instances.
    pub fn release_expired(&mut self, now: i64) -> (out: Vec<TicketInstance>)
        ensures
            final(self)@ == after(old(self)@, LedgerOp::Sweep { now }),
            final(self)@ == rewritten(
                old(self)@,
                Selector::Lapsed { now },
                old(self)@.len() as int,
                Change::Free,
            ),
            out@ == taken(old(self)@, Selector::Lapsed { now }, old(self)@.len() as int, Change::Free),
            out@.len() == count(old(self)@, Selector::Lapsed { now }),
            old(self).wf() ==> final(self).wf(),
    {
        let sel = Selector::Lapsed { now };
        let ghost s = self.tickets@;
        let n = self.tickets.len();
        let out = self.rewrite(&sel, n, Change::Free);
        proof {
            lemma_taken_len(s, sel, n as int, Change::Free, s.len() as int);
            lemma_count_bounds(s, sel, 0, s.len() as int);
        }
        out
    }

    /// Takes a purchased ticket back: it is available again, with no order
    /// item, no hold and no transfer binding. `NoResults`, and nothing
    /// changes, exactly when no purchased ticket has this id. Returns the
    /// tickets that were taken back.
    pub fn release(&mut self, ticket_id: u128) -> (r: Result<Vec<TicketInstance>, BusinessError>)
        ensures
            final(self)@ == after(old(self)@, LedgerOp::Cancel { ticket_id }),
            r is Err <==> count(old(self)@, Selector::PurchasedTicket { id: ticket_id }) == 0,
            r matches Err(e) ==> e == BusinessError::NoResults && final(self)@ == old(self)@,
            r matches Ok(out) ==> final(self)@ == rewritten(
                old(self)@,
                Selector::PurchasedTicket { id: ticket_id },
                old(self)@.len() as int,
                Change::Free,
            ) && out@ == taken(
                old(self)@,
                Selector::PurchasedTicket { id: ticket_id },
                old(self)@.len() as int,
                Change::Free,
            ),
            old(self).wf() ==> final(self).wf(),
    {
        let sel = Selector::PurchasedTicket { id: ticket_id };
        if self.count(&sel) == 0 {
            return Err(BusinessError::NoResults);
        }
        let n = self.tickets.len();
        Ok(self.rewrite(&sel, n, Change::Free))
    }

    /// Moves a ticket to another wallet and clears its transfer binding.
    /// `NoResults`, and nothing changes, exactly when no ticket has this id.
    pub fn set_wallet(&mut self, ticket_id: u128, wallet_id: u128) -> (r: Result<(), BusinessError>)
        ensures
            r is Err <==> count(old(self)@, Selector::Ticket { id: ticket_id }) == 0,
            r matches Err(e) ==> e == BusinessError::NoResults && final(self)@ == old(self)@,
            r is Ok ==> final(self)@ == rewritten(
                old(self)@,
                Selector::Ticket { id: ticket_id },
                old(self)@.len() as int,
                Change::Handover { wallet_id },
            ),
            old(self).wf() ==> final(self).wf(),
    {
        let sel = Selector::Ticket { id: ticket_id };
        if self.count(&sel) == 0 {
            return Err(BusinessError::NoResults);
        }
        let n = self.tickets.len();
        let _moved = self.rewrite(&sel, n, Change::Handover { wallet_id });
        Ok(())
    }

    /// Gives the ticket with this id the key by which it is redeemed.
    /// `NoResults`, and nothing changes, exactly when no ticket has this id.
    pub fn issue_redeem_key(&mut self, ticket_id: u128, key: String) -> (r: Result<(), BusinessError>)
        ensures
            match first(old(self)@, Lookup::Id(ticket_id)) {
                None => r == Err::<(), BusinessError>(BusinessError::NoResults) && final(self)@
                    == old(self)@,
                Some(i) => r is Ok && final(self)@ == old(self)@.update(
                    i,
                    TicketInstance { redeem_key: Some(key), ..old(self)@[i] },
                ),
            },
            old(self).wf() ==> final(self).wf(),
    {
        let i = match position(&self.tickets, &Lookup::Id(ticket_id)) {
            None => {
                return Err(BusinessError::NoResults);
            },
            Some(i) => i,
        };
        let ghost s = self.tickets@;
        let mut t = self.tickets[i].duplicate();
        t.redeem_key = Some(key);
        self.tickets.set(i, t);
        proof {
            let r = self.tickets@;
            if ledger_wf(s) {
                assert forall|j: int| 0 <= j < r.len() implies (#[trigger] r[j]).wf() && r[j].id
                    == s[j].id by {
                    assert(s[j].wf());
                }
                assert forall|j: int, k: int| 0 <= j < k < r.len() implies (#[trigger] r[j]).id != (
                #[trigger] r[k]).id by {
                    assert(r[j].id == s[j].id);
                    assert(r[k].id == s[k].id);
                }
            }
        }
        Ok(())
    }

    /// Redeems a ticket at the door.
    ///
    /// `NoResults` where no ticket has this id. A ticket that is redeemed
    /// already is answered with `TicketAlreadyRedeemed`. A purchased ticket
    /// that has been given a key is redeemed by that key, and by no other:
    /// with it the ticket becomes redeemed and the answer is
    /// `TicketRedeemSuccess`. Everything else is answered with
    /// `TicketInvalid`. Only a success changes the ledger.
    pub fn redeem_ticket(&mut self, ticket_id: u128, redeem_key: String) -> (r: Result<
        RedeemResults,
        BusinessError,
    >)
        ensures
            r == redemption(old(self)@, ticket_id, redeem_key@),
            final(self)@ == if r == Ok::<RedeemResults, BusinessError>(
                RedeemResults::TicketRedeemSuccess,
            ) {
                rewritten(
                    old(self)@,
                    Selector::PurchasedTicket { id: ticket_id },
                    old(self)@.len() as int,
                    Change::Redeem,
                )
            } else {
                old(self)@
            },
            old(self).wf() ==> final(self).wf(),
    {
        let i = match position(&self.tickets, &Lookup::Id(ticket_id)) {
            None => {
                return Err(BusinessError::NoResults);
            },
            Some(i) => i,
        };
        match self.tickets[i].status {
            TicketInstanceStatus::Redeemed => {
                return Ok(RedeemResults::TicketAlreadyRedeemed);
            },
            TicketInstanceStatus::Purchased => {},
            _ => {
                return Ok(RedeemResults::TicketInvalid);
            },
        }
        let opens = match &self.tickets[i].redeem_key {
            Some(key) => *key == redeem_key,
            None => false,
        };
        if !opens {
            return Ok(RedeemResults::TicketInvalid);
        }
        let n = self.tickets.len();
        let _redeemed = self.rewrite(&Selector::PurchasedTicket { id: ticket_id }, n, Change::Redeem);
        Ok(RedeemResults::TicketRedeemSuccess)
    }

    /// The instance with this id. `NoResults` exactly when there is none.
    pub fn find(&self, id: u128) -> (r: Result<TicketInstance, BusinessError>)
        ensures
            r is Err <==> count(self@, Selector::Ticket { id }) == 0,
            r matches Err(e) ==> e == BusinessError::NoResults,
            r matches Ok(t) ==> matching(self@, Selector::Ticket { id })[0] == t && t.id == id
                && self@.contains(t),
    {
        let mut i: usize = 0;
        while i < self.tickets.len()
            invariant
                i <= self.tickets.len(),
                count_before(self.tickets@, Selector::Ticket { id }, i as int) == 0,
                matching_before(self.tickets@, Selector::Ticket { id }, i as int) == Seq::<
                    TicketInstance,
                >::empty(),
            decreases self.tickets.len() - i,
        {
            if self.tickets[i].id == id {
                proof {
                    let s = self.tickets@;
                    let sel = Selector::Ticket { id };
                    assert(matching_before(s, sel, i + 1)[0] == s[i as int]);
                    lemma_matching_prefix(s, sel, i + 1, s.len() as int);
                    lemma_count_bounds(s, sel, i + 1, s.len() as int);
                }
                return Ok(self.tickets[i].duplicate());
            }
            i += 1;
        }
        Err(BusinessError::NoResults)
    }
}

/// A matched instance makes the count positive.
pub proof fn lemma_count_positive(s: Seq<TicketInstance>, sel: Selector, i: int)
    requires
        0 <= i < s.len(),
        selects(sel, s[i]),
    ensures
        count(s, sel) > 0,
{
    lemma_count_bounds(s, sel, i + 1, s.len() as int);
}

/// The matches among a longer prefix start with the matches among a shorter.
pub proof fn lemma_matching_prefix(s: Seq<TicketInstance>, sel: Selector, m: int, n: int)
    requires
        0 <= m <= n,
    ensures
        matching_before(s, sel, m).len() <= matching_before(s, sel, n).len(),
        forall|k: int|
            0 <= k < matching_before(s, sel, m).len() ==> matching_before(s, sel, n)[k]
                == matching_before(s, sel, m)[k],
    decreases n,
{
    if n > m {
        lemma_matching_prefix(s, sel, m, n - 1);
    }
}


} // verus!
