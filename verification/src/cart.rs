//! The cart: what a buyer asks for, how requests are grouped into order
//! items, and how tickets are reserved for them and released again.
//!
//! Adding is all or nothing. The requests of one ticket type and redemption
//! code are taken together, wherever they stand in what the buyer asks for;
//! each such group reserves its tickets in one step and feeds one order item.

use crate::assets::Asset;
use crate::checkout::{
    ask_auth, has_active_payment, is_auth_for, is_next_delivery, order_has_active_payment, refuse,
    refused, settle_next, starts_settlement, Action, CheckoutResponse, Command, Stage, Step, User,
};
use crate::errors::BusinessError;
use crate::payments::{find_method, method_of, Payment, PaymentStatus};
use crate::service_locator::{is_known_provider, Config, ServiceLocator};
use crate::settlement::{
    delivery_views, fully_reserved, holds_in_full, item_ids, order_plan, plan_deliveries, purchased,
    Delivery, DeliveryView,
};
use crate::inventory::{
    available, count, ledger_wf, lemma_count_bounds, lemma_rewrite_keeps_wf, refusal, rewritten,
    Change, Ledger, LedgerOp, Selector, TicketInstance,
};
use crate::ledger_laws::{after_all, all_reservations};
use crate::orders::{
    code_view, copy_code, copy_items, same_code, find_allotment, find_line, allotment_of, lemma_line_stays, line_of, views,
    Allotment, Order, OrderItem, OrderStatus, OrderTypes, OrderView, TicketType,
};
use crate::records::{first, lemma_first, position, Lookup, Record};
use crate::store::{
    is_cart, lemma_order_added, lemma_order_ids_below_more, lemma_order_removed,
    lemma_order_replaced, one_cart_each, Store,
};
use itertools::Itertools;
use vstd::prelude::*;

verus! {

/// The answer to a change of the cart.
#[derive(Clone, Copy, Debug, PartialEq, Eq)]
pub struct CartResponse {
    pub cart_id: u128,
}

/// One request for tickets.
#[derive(Clone, Debug, PartialEq, Eq)]
pub struct AddToCartRequestItem {
    pub redemption_key: Option<String>,
    pub ticket_type_id: u128,
    pub quantity: i64,
}

/// What a buyer wants to add to the cart.
#[derive(Clone, Debug, PartialEq, Eq)]
pub struct AddToCartRequest {
    pub items: Vec<AddToCartRequestItem>,
}

/// What a buyer wants to take out of the cart: an item, or some of its
/// tickets.
#[derive(Clone, Copy, Debug, PartialEq, Eq)]
pub struct RemoveCartRequest {
    pub cart_item_id: u128,
    pub quantity: Option<i64>,
}

/// Requests taken together: so many tickets of one type under one code.
#[derive(Clone, Debug, PartialEq, Eq)]
pub struct TicketGroup {
    pub ticket_type_id: u128,
    pub redemption_code: Option<String>,
    pub quantity: i128,
}

/// A group as contracts speak of it: its quantity as a number without
/// bounds.
pub struct GroupView {
    pub ticket_type_id: u128,
    pub redemption_code: Option<String>,
    pub quantity: int,
}

impl View for TicketGroup {
    type V = GroupView;

    open spec fn view(&self) -> GroupView {
        GroupView {
            ticket_type_id: self.ticket_type_id,
            redemption_code: self.redemption_code,
            quantity: self.quantity as int,
        }
    }
}

/// The groups as contracts speak of them.
pub open spec fn group_views(groups: Seq<TicketGroup>) -> Seq<GroupView> {
    Seq::new(groups.len(), |k: int| groups[k]@)
}

/// What requests are grouped by: the ticket type and what the redemption
/// code reads.
pub open spec fn key_view(item: AddToCartRequestItem) -> (u128, Option<Seq<char>>) {
    (item.ticket_type_id, code_view(item.redemption_key))
}

/// The key of a request, computed.
pub fn group_key(item: &AddToCartRequestItem) -> (k: (u128, Option<String>))
    ensures
        k.0 == item.ticket_type_id,
        k.1 == item.redemption_key,
{
    (item.ticket_type_id, copy_code(&item.redemption_key))
}

/// Whether `runs` cuts `items` into its runs of equal key: laid end to end
/// the runs are the items, no run is empty, the requests of a run share one
/// key, and two neighbouring runs differ in theirs.
pub open spec fn is_chunking(
    items: Seq<AddToCartRequestItem>,
    runs: Seq<Seq<AddToCartRequestItem>>,
) -> bool {
    &&& runs.flatten() == items
    &&& forall|r: int| 0 <= r < runs.len() ==> (#[trigger] runs[r]).len() > 0
    &&& forall|r: int, i: int|
        0 <= r < runs.len() && 0 <= i < runs[r].len() ==> key_view(#[trigger] runs[r][i])
            == key_view(runs[r][0])
    &&& forall|r: int|
        0 <= r < runs.len() - 1 ==> key_view((#[trigger] runs[r])[0]) != key_view(runs[r + 1][0])
}

/// One run as a sequence of requests.
pub open spec fn run_view(run: Vec<&AddToCartRequestItem>) -> Seq<AddToCartRequestItem> {
    Seq::new(run@.len(), |i: int| *run@[i])
}

/// The runs as sequences of requests.
pub open spec fn run_views(runs: Seq<Vec<&AddToCartRequestItem>>) -> Seq<Seq<AddToCartRequestItem>> {
    Seq::new(runs.len(), |r: int| run_view(runs[r]))
}

/// Cuts the requests into their runs of equal key, in order.
///
/// Trusted: the body calls `Itertools::chunk_by` of the itertools crate on
/// the requests, with [`group_key`] as the key, and collects the requests of
/// each chunk. The contract states what that function documents:
/// consecutive elements that map to the same key are assigned to the same
/// group, and keys are compared with `==`.
#[verifier::external_body]
fn chunk_by_key<'a>(items: &'a Vec<AddToCartRequestItem>) -> (runs: Vec<Vec<&'a AddToCartRequestItem>>)
    ensures
        is_chunking(items@, run_views(runs@)),
{
    let chunks = items.iter().chunk_by(|item| group_key(item));
    let mut runs = Vec::new();
    for (_, run) in &chunks {
        runs.push(run.collect());
    }
    runs
}

/// How many tickets the first `n` requests of a run ask for together.
pub open spec fn quantity_before(run: Seq<AddToCartRequestItem>, n: int) -> int
    decreases n,
{
    if n <= 0 {
        0
    } else {
        quantity_before(run, n - 1) + run[n - 1].quantity
    }
}

/// A run taken together: the ticket type and code of its first request and
/// the sum of its quantities. An empty run asks for nothing.
pub open spec fn summary(run: Seq<AddToCartRequestItem>) -> GroupView {
    if run.len() == 0 {
        GroupView { ticket_type_id: 0, redemption_code: None, quantity: 0 }
    } else {
        GroupView {
            ticket_type_id: run[0].ticket_type_id,
            redemption_code: run[0].redemption_key,
            quantity: quantity_before(run, run.len() as int),
        }
    }
}

/// The runs taken together, each as one group.
pub open spec fn summaries(runs: Seq<Seq<AddToCartRequestItem>>) -> Seq<GroupView> {
    Seq::new(runs.len(), |r: int| summary(runs[r]))
}

/// A sum of `n` quantities is at most `n` times the largest `i64`, either
/// way.
pub proof fn lemma_quantity_bounds(run: Seq<AddToCartRequestItem>, n: int)
    requires
        0 <= n,
    ensures
        -n * 0x8000_0000_0000_0000 <= quantity_before(run, n) <= n * 0x8000_0000_0000_0000,
    decreases n,
{
    if n > 0 {
        lemma_quantity_bounds(run, n - 1);
    }
}

/// A quantity without its sign.
pub open spec fn magnitude(q: int) -> int {
    if q < 0 {
        -q
    } else {
        q
    }
}

/// The quantities of the first `n` groups, without their signs, in sum.
pub open spec fn weight_before(groups: Seq<GroupView>, n: int) -> int
    decreases n,
{
    if n <= 0 {
        0
    } else {
        weight_before(groups, n - 1) + magnitude(groups[n - 1].quantity)
    }
}

/// How many requests the first `n` runs hold together.
pub open spec fn span_before(runs: Seq<Seq<AddToCartRequestItem>>, n: int) -> int
    decreases n,
{
    if n <= 0 {
        0
    } else {
        span_before(runs, n - 1) + runs[n - 1].len()
    }
}

/// The weight of more groups is not less.
pub proof fn lemma_weight_grows(groups: Seq<GroupView>, m: int, n: int)
    requires
        0 <= m <= n,
    ensures
        0 <= weight_before(groups, m) <= weight_before(groups, n),
    decreases n,
{
    if n > m {
        lemma_weight_grows(groups, m, n - 1);
    } else if n > 0 {
        lemma_weight_grows(groups, n - 1, n - 1);
    }
}

/// Runs laid end to end are as long as the runs together.
pub proof fn lemma_span_is_length(runs: Seq<Seq<AddToCartRequestItem>>, n: int)
    requires
        0 <= n <= runs.len(),
    ensures
        runs.take(n).flatten().len() == span_before(runs, n),
    decreases n,
{
    if n > 0 {
        lemma_span_is_length(runs, n - 1);
        assert(runs.take(n) =~= runs.take(n - 1).push(runs[n - 1]));
        runs.take(n - 1).lemma_flatten_push(runs[n - 1]);
    }
}

/// The summaries of runs weigh at most as many times the largest `i64` as
/// the runs hold requests.
pub proof fn lemma_summaries_weight(runs: Seq<Seq<AddToCartRequestItem>>, n: int)
    requires
        0 <= n <= runs.len(),
    ensures
        weight_before(summaries(runs), n) <= span_before(runs, n) * 0x8000_0000_0000_0000,
    decreases n,
{
    if n > 0 {
        lemma_summaries_weight(runs, n - 1);
        lemma_quantity_bounds(runs[n - 1], runs[n - 1].len() as int);
    }
}

/// Takes each run together as one group.
pub fn summarize(runs: &Vec<Vec<&AddToCartRequestItem>>) -> (groups: Vec<TicketGroup>)
    ensures
        group_views(groups@) == summaries(run_views(runs@)),
{
    let mut groups: Vec<TicketGroup> = Vec::new();
    let mut r: usize = 0;
    while r < runs.len()
        invariant
            r <= runs.len(),
            group_views(groups@) == summaries(run_views(runs@)).take(r as int),
        decreases runs.len() - r,
    {
        let run = &runs[r];
        let ghost done = groups@;
        let group = if run.len() == 0 {
            TicketGroup { ticket_type_id: 0, redemption_code: None, quantity: 0 }
        } else {
            let mut quantity: i128 = 0;
            let mut i: usize = 0;
            while i < run.len()
                invariant
                    i <= run.len(),
                    quantity == quantity_before(run_view(*run), i as int),
                decreases run.len() - i,
            {
                proof {
                    lemma_quantity_bounds(run_view(*run), i as int);
                }
                quantity = quantity + run[i].quantity as i128;
                i += 1;
            }
            TicketGroup {
                ticket_type_id: run[0].ticket_type_id,
                redemption_code: copy_code(&run[0].redemption_key),
                quantity,
            }
        };
        groups.push(group);
        proof {
            let all = summaries(run_views(runs@));
            assert(run_views(runs@)[r as int] == run_view(*run));
            assert(group@ == all[r as int]);
            assert(group_views(groups@) =~= group_views(done).push(group@));
            assert(all.take(r + 1) == all.take(r as int).push(all[r as int]));
        }
        r += 1;
    }
    proof {
        let all = summaries(run_views(runs@));
        assert(all.take(all.len() as int) == all);
    }
    groups
}

/// Whether two groups are of one key: the same ticket type, and redemption
/// codes that read the same.
pub open spec fn same_key(a: GroupView, b: GroupView) -> bool {
    a.ticket_type_id == b.ticket_type_id && code_view(a.redemption_code) == code_view(
        b.redemption_code,
    )
}

/// The place of the first group among the first `n` that is of one key with
/// `g`.
pub open spec fn group_before(groups: Seq<GroupView>, g: GroupView, n: int) -> Option<int>
    decreases n,
{
    if n <= 0 {
        None
    } else {
        match group_before(groups, g, n - 1) {
            Some(i) => Some(i),
            None => if same_key(groups[n - 1], g) {
                Some(n - 1)
            } else {
                None
            },
        }
    }
}

/// A group found among the first is the group found among all, and what is
/// found is in range.
pub proof fn lemma_group_stays(groups: Seq<GroupView>, g: GroupView, m: int, n: int)
    requires
        0 <= m <= n,
    ensures
        group_before(groups, g, m) is Some ==> group_before(groups, g, n) == group_before(
            groups,
            g,
            m,
        ),
        group_before(groups, g, n) matches Some(i) ==> 0 <= i < n,
    decreases n,
{
    if n > m {
        lemma_group_stays(groups, g, m, n - 1);
    } else if n > 0 {
        lemma_group_stays(groups, g, n - 1, n - 1);
    }
}

/// The merged groups with one more group: its quantity joins that of the
/// group of its key; where there is none, it stands at the end as a group
/// of its own.
pub open spec fn merged_with(m: Seq<GroupView>, g: GroupView) -> Seq<GroupView> {
    match group_before(m, g, m.len() as int) {
        Some(i) => m.update(i, GroupView { quantity: m[i].quantity + g.quantity, ..m[i] }),
        None => m.push(g),
    }
}

/// The first `n` groups merged: one group for each key among them, in the
/// order in which the keys first occur, with the ticket type and code of the
/// first group of the key and with the quantities of all groups of the key
/// in sum.
pub open spec fn merged_before(groups: Seq<GroupView>, n: int) -> Seq<GroupView>
    decreases n,
{
    if n <= 0 {
        Seq::empty()
    } else {
        merged_with(merged_before(groups, n - 1), groups[n - 1])
    }
}

/// The groups merged: one group for each key, whatever stands between the
/// groups of one key.
pub open spec fn merged(groups: Seq<GroupView>) -> Seq<GroupView> {
    merged_before(groups, groups.len() as int)
}

/// The place of the first group that is of one key with `g`.
fn find_group(groups: &Vec<TicketGroup>, g: &TicketGroup) -> (r: Option<usize>)
    ensures
        match r {
            Some(i) => group_before(group_views(groups@), g@, groups@.len() as int) == Some(i as int)
                && i < groups.len(),
            None => group_before(group_views(groups@), g@, groups@.len() as int) is None,
        },
{
    let mut i: usize = 0;
    while i < groups.len()
        invariant
            i <= groups.len(),
            group_before(group_views(groups@), g@, i as int) is None,
        decreases groups.len() - i,
    {
        if groups[i].ticket_type_id == g.ticket_type_id && same_code(
            &groups[i].redemption_code,
            &g.redemption_code,
        ) {
            proof {
                assert(same_key(group_views(groups@)[i as int], g@));
                lemma_group_stays(group_views(groups@), g@, i + 1, groups@.len() as int);
            }
            return Some(i);
        }
        proof {
            assert(!same_key(group_views(groups@)[i as int], g@));
        }
        i += 1;
    }
    None
}

/// Merges the groups of one key: see [`merged`]. The quantities must be
/// such that their sum fits, whatever their signs.
pub(crate) fn merge(groups: &Vec<TicketGroup>) -> (out: Vec<TicketGroup>)
    requires
        weight_before(group_views(groups@), groups@.len() as int) <= i128::MAX,
    ensures
        group_views(out@) == merged(group_views(groups@)),
{
    let ghost all = group_views(groups@);
    let mut out: Vec<TicketGroup> = Vec::new();
    let mut k: usize = 0;
    assert(group_views(out@) =~= merged_before(all, 0));
    while k < groups.len()
        invariant
            k <= groups.len(),
            all == group_views(groups@),
            weight_before(all, groups@.len() as int) <= i128::MAX,
            group_views(out@) == merged_before(all, k as int),
            forall|j: int|
                0 <= j < out@.len() ==> magnitude((#[trigger] out@[j]).quantity as int)
                    <= weight_before(all, k as int),
        decreases groups.len() - k,
    {
        let g = &groups[k];
        let ghost done = out@;
        proof {
            lemma_weight_grows(all, k as int, k + 1);
            lemma_weight_grows(all, k + 1, groups@.len() as int);
            assert(all[k as int] == g@);
        }
        match find_group(&out, g) {
            Some(i) => {
                let joined = TicketGroup {
                    ticket_type_id: out[i].ticket_type_id,
                    redemption_code: copy_code(&out[i].redemption_code),
                    quantity: out[i].quantity + g.quantity,
                };
                out.set(i, joined);
                assert(group_views(out@) =~= merged_with(group_views(done), g@));
            },
            None => {
                out.push(
                    TicketGroup {
                        ticket_type_id: g.ticket_type_id,
                        redemption_code: copy_code(&g.redemption_code),
                        quantity: g.quantity,
                    },
                );
                assert(group_views(out@) =~= merged_with(group_views(done), g@));
            },
        }
        k += 1;
    }
    out
}

/// A cart in the making: the ledger, the cart's items and the next free
/// identifier, as they stand after some groups.
pub struct CartDraft {
    pub tickets: Seq<TicketInstance>,
    pub items: Seq<OrderItem>,
    pub next_id: u128,
}

/// What is on sale, as adding to a cart needs it: the price list and the
/// allotments.
pub struct Offer {
    pub prices: Seq<TicketType>,
    pub allotments: Seq<Allotment>,
}

/// The allotment that a group's tickets come out of: none for a group
/// without a redemption code, else the one that the code redeems for the
/// ticket type,
/// if there is one.
pub open spec fn allotment_for(g: GroupView, allotments: Seq<Allotment>) -> Option<Option<u128>> {
    match g.redemption_code {
        None => Some(None),
        Some(code) => match allotment_of(allotments, g.ticket_type_id, code@) {
            Some(h) => Some(Some(allotments[h].id)),
            None => None,
        },
    }
}

/// The draft after one more group, or why the group is refused.
///
/// A group that asks for nothing changes nothing. Otherwise the ticket type
/// must be on the price list and the redemption code, if there is one, must
/// redeem an allotment of it (`NoResults`), and as many tickets must be on
/// offer: with a code those that are set aside for its allotment, without one
/// those that
/// are set aside for nothing (`InsufficientInventory`). They are reserved
/// until `until` for the item that is the line of this type and code, whose
/// quantity grows; where there is no such item, for a new one, which takes
/// the next identifier and the listed price. `PersistenceError` where the
/// quantity or the identifier would leave its range.
pub open spec fn with_group(d: CartDraft, g: GroupView, offer: Offer, until: i64) -> Result<
    CartDraft,
    BusinessError,
> {
    if g.quantity <= 0 {
        Ok(d)
    } else if g.quantity > i64::MAX {
        Err(BusinessError::InsufficientInventory)
    } else {
        match (first(offer.prices, Lookup::Id(g.ticket_type_id)), allotment_for(g, offer.allotments)) {
            (Some(p), Some(allotment_id)) => if g.quantity > count(
                d.tickets,
                available(g.ticket_type_id, allotment_id),
            ) {
                Err(BusinessError::InsufficientInventory)
            } else {
                match line_of(d.items, g.ticket_type_id, code_view(g.redemption_code)) {
                    Some(i) => if d.items[i].quantity + g.quantity > i64::MAX {
                        Err(BusinessError::PersistenceError)
                    } else {
                        Ok(
                            CartDraft {
                                tickets: rewritten(
                                    d.tickets,
                                    available(g.ticket_type_id, allotment_id),
                                    g.quantity as int,
                                    Change::Hold { order_item_id: d.items[i].id, until },
                                ),
                                items: d.items.update(
                                    i,
                                    OrderItem {
                                        quantity: (d.items[i].quantity + g.quantity) as i64,
                                        ..d.items[i]
                                    },
                                ),
                                next_id: d.next_id,
                            },
                        )
                    },
                    None => if d.next_id == u128::MAX {
                        Err(BusinessError::PersistenceError)
                    } else {
                        Ok(
                            CartDraft {
                                tickets: rewritten(
                                    d.tickets,
                                    available(g.ticket_type_id, allotment_id),
                                    g.quantity as int,
                                    Change::Hold { order_item_id: d.next_id, until },
                                ),
                                items: d.items.push(
                                    OrderItem {
                                        id: d.next_id,
                                        ticket_type_id: g.ticket_type_id,
                                        quantity: g.quantity as i64,
                                        redemption_code: g.redemption_code,
                                        unit_price_in_cents: offer.prices[p].price_in_cents,
                                    },
                                ),
                                next_id: (d.next_id + 1) as u128,
                            },
                        )
                    },
                }
            },
            _ => Err(BusinessError::NoResults),
        }
    }
}

/// The draft after the first `n` groups, one after another, or the refusal
/// of the first group that is refused.
pub open spec fn with_groups(
    d: CartDraft,
    groups: Seq<GroupView>,
    offer: Offer,
    until: i64,
    n: int,
) -> Result<CartDraft, BusinessError>
    decreases n,
{
    if n <= 0 {
        Ok(d)
    } else {
        match with_groups(d, groups, offer, until, n - 1) {
            Err(e) => Err(e),
            Ok(before) => with_group(before, groups[n - 1], offer, until),
        }
    }
}

/// Whether any group asks for a ticket.
pub open spec fn asks_for_tickets(groups: Seq<GroupView>) -> bool {
    exists|k: int| 0 <= k < groups.len() && (#[trigger] groups[k]).quantity > 0
}

/// A cart after adding: the ledger, the orders, the next free identifier and
/// the cart's own identifier.
pub struct CartOutcome {
    pub tickets: Seq<TicketInstance>,
    pub orders: Seq<OrderView>,
    pub next_id: u128,
    pub cart_id: u128,
}

/// What the store has on sale.
pub open spec fn on_sale(store: Store) -> Offer {
    Offer { prices: store.catalog.ticket_types@, allotments: store.catalog.allotments@ }
}

/// What adding the groups to the account's cart comes to.
///
/// `EmptyRequest` where no group asks for a ticket. `PersistenceError` where
/// the end of the hold is past the last instant that can be stored, or no
/// identifier is left for a cart that has to be opened. Else the groups are
/// added one after another (see [`with_groups`]) to the account's cart, or
/// to a new cart with the next identifier where the account has none; the
/// first refusal among them refuses the whole.
pub open spec fn added(store: Store, user_id: u128, groups: Seq<GroupView>, now: i64) -> Result<
    CartOutcome,
    BusinessError,
> {
    let cart = first(store.orders@, Lookup::DefaultOf(user_id));
    if !asks_for_tickets(groups) {
        Err(BusinessError::EmptyRequest)
    } else if now + store.catalog.hold_window > i64::MAX || (cart is None && store.next_id
        == u128::MAX) {
        Err(BusinessError::PersistenceError)
    } else {
        let start = CartDraft {
            tickets: store.ledger@,
            items: match cart {
                Some(c) => store.orders@[c].items@,
                None => Seq::empty(),
            },
            next_id: match cart {
                Some(_) => store.next_id,
                None => (store.next_id + 1) as u128,
            },
        };
        match with_groups(
            start,
            groups,
            on_sale(store),
            (now + store.catalog.hold_window) as i64,
            groups.len() as int,
        ) {
            Err(e) => Err(e),
            Ok(d) => Ok(
                CartOutcome {
                    tickets: d.tickets,
                    orders: match cart {
                        Some(c) => views(store.orders@).update(
                            c,
                            OrderView { items: d.items, ..store.orders@[c]@ },
                        ),
                        None => views(store.orders@).push(
                            OrderView {
                                id: store.next_id,
                                user_id,
                                on_behalf_of_user_id: None,
                                order_type: OrderTypes::Cart,
                                status: OrderStatus::Draft,
                                items: d.items,
                            },
                        ),
                    },
                    next_id: d.next_id,
                    cart_id: match cart {
                        Some(c) => store.orders@[c].id,
                        None => store.next_id,
                    },
                },
            ),
        }
    }
}

/// A refusal among the first groups refuses the whole.
pub proof fn lemma_refusal_stays(
    d: CartDraft,
    groups: Seq<GroupView>,
    offer: Offer,
    until: i64,
    m: int,
    n: int,
)
    requires
        0 <= m <= n,
        with_groups(d, groups, offer, until, m) is Err,
    ensures
        with_groups(d, groups, offer, until, n) == with_groups(d, groups, offer, until, m),
    decreases n,
{
    if n > m {
        lemma_refusal_stays(d, groups, offer, until, m, n - 1);
    }
}

/// Whether the identifiers of all the items are below `bound`.
pub open spec fn item_ids_below(items: Seq<OrderItem>, bound: u128) -> bool {
    forall|j: int| 0 <= j < items.len() ==> (#[trigger] items[j]).id < bound
}

/// Groups that are all granted leave a valid ledger valid, take no item
/// away, and leave an item behind if one of them asks for a ticket. The
/// identifiers that they give to new items are the next ones, so that all
/// stay below the next.
pub proof fn lemma_groups_granted(
    d: CartDraft,
    groups: Seq<GroupView>,
    offer: Offer,
    until: i64,
    n: int,
)
    requires
        0 <= n <= groups.len(),
        with_groups(d, groups, offer, until, n) is Ok,
    ensures
        ({
            let r = with_groups(d, groups, offer, until, n)->Ok_0;
            &&& ledger_wf(d.tickets) ==> ledger_wf(r.tickets)
            &&& r.items.len() >= d.items.len()
            &&& (exists|k: int| 0 <= k < n && (#[trigger] groups[k]).quantity > 0) ==> r.items.len()
                > 0
            &&& d.next_id <= r.next_id
            &&& item_ids_below(d.items, d.next_id) ==> item_ids_below(r.items, r.next_id)
        }),
    decreases n,
{
    if n > 0 {
        let before = with_groups(d, groups, offer, until, n - 1);
        lemma_groups_granted(d, groups, offer, until, n - 1);
        let b = before->Ok_0;
        let g = groups[n - 1];
        let r = with_groups(d, groups, offer, until, n)->Ok_0;
        if g.quantity > 0 {
            let line = line_of(b.items, g.ticket_type_id, code_view(g.redemption_code));
            lemma_line_stays(
                b.items,
                g.ticket_type_id,
                code_view(g.redemption_code),
                b.items.len() as int,
                b.items.len() as int,
            );
            if item_ids_below(d.items, d.next_id) {
                assert forall|j: int| 0 <= j < r.items.len() implies (#[trigger] r.items[j]).id
                    < r.next_id by {
                    if j < b.items.len() {
                        assert(b.items[j].id < b.next_id);
                        assert(r.items[j].id == b.items[j].id);
                    }
                }
            }
            if ledger_wf(b.tickets) {
                let item_id = if line is Some {
                    b.items[line->0].id
                } else {
                    b.next_id
                };
                lemma_rewrite_keeps_wf(
                    b.tickets,
                    available(g.ticket_type_id, allotment_for(g, offer.allotments)->0),
                    g.quantity as int,
                    Change::Hold { order_item_id: item_id, until },
                );
            }
        } else {
            assert forall|k: int| 0 <= k < n && (#[trigger] groups[k]).quantity > 0 implies k < n
                - 1 by {}
        }
    }
}

/// The reservations that adding the first `n` groups makes on the ledger,
/// in their order: one for each group that asks for tickets, out of the
/// stock of its ticket type and allotment, for the order item of its line.
pub open spec fn reservations_before(
    d: CartDraft,
    groups: Seq<GroupView>,
    offer: Offer,
    until: i64,
    n: int,
) -> Seq<LedgerOp>
    decreases n,
{
    if n <= 0 {
        Seq::empty()
    } else {
        let made = reservations_before(d, groups, offer, until, n - 1);
        let g = groups[n - 1];
        match with_groups(d, groups, offer, until, n - 1) {
            Ok(b) => if g.quantity > 0 && with_group(b, g, offer, until) is Ok {
                made.push(
                    LedgerOp::Reserve {
                        ticket_type_id: g.ticket_type_id,
                        quantity: g.quantity as i64,
                        allotment_id: allotment_for(g, offer.allotments)->0,
                        order_item_id: match line_of(
                            b.items,
                            g.ticket_type_id,
                            code_view(g.redemption_code),
                        ) {
                            Some(i) => b.items[i].id,
                            None => b.next_id,
                        },
                        until,
                    },
                )
            } else {
                made
            },
            Err(_) => made,
        }
    }
}

/// Adding is reserving. What adding groups to a cart does to the ledger is
/// what a run of reservations does, each of them granted: so whatever holds
/// of the ledger over any run of reservations holds of it over any run of
/// additions to carts, whichever comes first, and a refused addition leaves
/// the ledger as it was. In particular no more is handed out than was on
/// offer (see [`law_no_oversell`]).
pub proof fn law_adding_is_reserving(
    d: CartDraft,
    groups: Seq<GroupView>,
    offer: Offer,
    until: i64,
    n: int,
)
    requires
        0 <= n <= groups.len(),
        with_groups(d, groups, offer, until, n) is Ok,
    ensures
        all_reservations(reservations_before(d, groups, offer, until, n)),
        with_groups(d, groups, offer, until, n)->Ok_0.tickets == after_all(
            d.tickets,
            reservations_before(d, groups, offer, until, n),
        ),
        forall|k: int|
            0 <= k < reservations_before(d, groups, offer, until, n).len() ==> refusal(
                after_all(d.tickets, reservations_before(d, groups, offer, until, n).take(k)),
                #[trigger] reservations_before(d, groups, offer, until, n)[k],
            ) is None,
    decreases n,
{
    if n > 0 {
        law_adding_is_reserving(d, groups, offer, until, n - 1);
        let made = reservations_before(d, groups, offer, until, n - 1);
        let ops = reservations_before(d, groups, offer, until, n);
        let b = with_groups(d, groups, offer, until, n - 1)->Ok_0;
        let g = groups[n - 1];
        if g.quantity > 0 {
            let op = ops.last();
            assert(ops == made.push(op));
            assert(ops.drop_last() =~= made);
            assert(refusal(b.tickets, op) is None);
            assert forall|k: int| 0 <= k < ops.len() implies #[trigger] ops[k] is Reserve by {
                if k < made.len() {
                    assert(made[k] is Reserve);
                }
            }
            assert forall|k: int| 0 <= k < ops.len() implies refusal(
                after_all(d.tickets, ops.take(k)),
                #[trigger] ops[k],
            ) is None by {
                if k < made.len() {
                    assert(ops.take(k) =~= made.take(k));
                    assert(ops[k] == made[k]);
                } else {
                    assert(ops.take(k) =~= made);
                }
            }
        }
    }
}

/// A request beyond the stock is refused. Let an account ask for tickets
/// of one ticket type that is on the price list, under a code that redeems
/// an allotment of it or under none, at an instant whose hold can be stored,
/// with an identifier left for a cart if one has to be opened. If it asks for
/// more than is on offer to it, the request is refused with
/// `InsufficientInventory`; and as every refusal does, it leaves the store as
/// it was, so that nothing is reserved in part.
pub proof fn law_too_large_a_request_is_refused(store: Store, user_id: u128, g: GroupView, now: i64)
    requires
        g.quantity >= 1,
        now + store.catalog.hold_window <= i64::MAX,
        first(store.orders@, Lookup::DefaultOf(user_id)) is Some || store.next_id != u128::MAX,
        first(store.catalog.ticket_types@, Lookup::Id(g.ticket_type_id)) is Some,
        allotment_for(g, store.catalog.allotments@) matches Some(a) && g.quantity > count(
            store.ledger@,
            available(g.ticket_type_id, a),
        ),
    ensures
        added(store, user_id, seq![g], now) == Err::<CartOutcome, BusinessError>(
            BusinessError::InsufficientInventory,
        ),
{
    let groups = seq![g];
    assert(groups[0].quantity > 0);
    assert(asks_for_tickets(groups));
    let cart = first(store.orders@, Lookup::DefaultOf(user_id));
    let start = CartDraft {
        tickets: store.ledger@,
        items: match cart {
            Some(c) => store.orders@[c].items@,
            None => Seq::empty(),
        },
        next_id: match cart {
            Some(_) => store.next_id,
            None => (store.next_id + 1) as u128,
        },
    };
    let until = (now + store.catalog.hold_window) as i64;
    assert(with_groups(start, groups, on_sale(store), until, 0) == Ok::<CartDraft, BusinessError>(
        start,
    ));
    assert(with_groups(start, groups, on_sale(store), until, 1) == with_group(
        start,
        g,
        on_sale(store),
        until,
    ));
}

/// Adds one group to a cart in the making.
fn add_group(
    ledger: &mut Ledger,
    items: &mut Vec<OrderItem>,
    next_id: &mut u128,
    prices: &Vec<TicketType>,
    allotments: &Vec<Allotment>,
    g: &TicketGroup,
    until: i64,
) -> (r: Result<(), BusinessError>)
    ensures
        match with_group(
            CartDraft { tickets: old(ledger)@, items: old(items)@, next_id: *old(next_id) },
            g@,
            Offer { prices: prices@, allotments: allotments@ },
            until,
        ) {
            Err(e) => r == Err::<(), BusinessError>(e),
            Ok(d) => r is Ok && final(ledger)@ == d.tickets && final(items)@ == d.items && *final(next_id) == d.next_id,
        },
{
    if g.quantity <= 0 {
        return Ok(());
    }
    if g.quantity > i64::MAX as i128 {
        return Err(BusinessError::InsufficientInventory);
    }
    let quantity = g.quantity as i64;
    let price = match position(prices, &Lookup::Id(g.ticket_type_id)) {
        None => {
            return Err(BusinessError::NoResults);
        },
        Some(p) => prices[p].price_in_cents,
    };
    let allotment_id = match &g.redemption_code {
        None => None,
        Some(code) => match find_allotment(allotments, g.ticket_type_id, code) {
            None => {
                return Err(BusinessError::NoResults);
            },
            Some(h) => Some(allotments[h].id),
        },
    };
    let sel = Selector::OnOffer { ticket_type_id: g.ticket_type_id, allotment_id };
    if quantity as u64 > ledger.count(&sel) as u64 {
        return Err(BusinessError::InsufficientInventory);
    }
    match find_line(items, g.ticket_type_id, &g.redemption_code) {
        Some(i) => {
            let sum = match items[i].quantity.checked_add(quantity) {
                None => {
                    return Err(BusinessError::PersistenceError);
                },
                Some(sum) => sum,
            };
            let mut item = items[i].duplicate();
            let _reserved = ledger.reserve(g.ticket_type_id, quantity, allotment_id, item.id, until);
            item.quantity = sum;
            items.set(i, item);
        },
        None => {
            if *next_id == u128::MAX {
                return Err(BusinessError::PersistenceError);
            }
            let id = *next_id;
            let _reserved = ledger.reserve(g.ticket_type_id, quantity, allotment_id, id, until);
            items.push(
                OrderItem {
                    id,
                    ticket_type_id: g.ticket_type_id,
                    quantity,
                    redemption_code: copy_code(&g.redemption_code),
                    unit_price_in_cents: price,
                },
            );
            *next_id = id + 1;
        },
    }
    Ok(())
}

/// Whether any group asks for a ticket, computed.
fn any_tickets(groups: &Vec<TicketGroup>) -> (b: bool)
    ensures
        b == asks_for_tickets(group_views(groups@)),
{
    let mut k: usize = 0;
    while k < groups.len()
        invariant
            k <= groups.len(),
            forall|j: int| 0 <= j < k ==> (#[trigger] group_views(groups@)[j]).quantity <= 0,
        decreases groups.len() - k,
    {
        if groups[k].quantity > 0 {
            assert(group_views(groups@)[k as int].quantity > 0);
            return true;
        }
        k += 1;
    }
    false
}

/// Whether the store is as it was but for the ledger, the orders and the
/// next free identifier.
pub open spec fn only_cart_changed(before: Store, after: Store) -> bool {
    after.wallets == before.wallets && after.assets == before.assets && after.payments
        == before.payments && after.payment_methods == before.payment_methods
        && after.domain_actions == before.domain_actions && after.catalog == before.catalog
}

/// Adds groups of tickets to the account's cart, reserving the tickets. The
/// groups are taken as they are given, one after another.
///
/// What it comes to is stated by [`added`]. All or nothing: where the
/// request is refused, the store is as it was.
#[verifier::loop_isolation(false)]
pub fn add_items(store: &mut Store, user_id: u128, groups: &Vec<TicketGroup>, now: i64) -> (r: Result<
    CartResponse,
    BusinessError,
>)
    ensures
        match r {
            Err(e) => added(*old(store), user_id, group_views(groups@), now) == Err::<
                CartOutcome,
                BusinessError,
            >(e)
                && *final(store) == *old(store),
            Ok(response) => added(*old(store), user_id, group_views(groups@), now) matches Ok(o)
                && final(store).ledger@ == o.tickets
                && views(final(store).orders@) == o.orders
                && final(store).next_id == o.next_id
                && response.cart_id == o.cart_id
                && only_cart_changed(*old(store), *final(store)),
        },
        old(store).wf() ==> final(store).wf(),
{
    if !any_tickets(groups) {
        return Err(BusinessError::EmptyRequest);
    }
    let until = match now.checked_add(store.catalog.hold_window as i64) {
        None => {
            return Err(BusinessError::PersistenceError);
        },
        Some(until) => until,
    };
    let cart = position(&store.orders, &Lookup::DefaultOf(user_id));
    let mut next_id = store.next_id;
    let mut items: Vec<OrderItem> = Vec::new();
    let cart_id = match cart {
        Some(c) => {
            items = copy_items(&store.orders[c].items);
            store.orders[c].id
        },
        None => {
            if store.next_id == u128::MAX {
                return Err(BusinessError::PersistenceError);
            }
            next_id = store.next_id + 1;
            store.next_id
        },
    };
    let mut ledger = store.ledger.snapshot();
    let ghost start = CartDraft { tickets: ledger@, items: items@, next_id };
    let ghost offer = on_sale(*store);
    let ghost all = group_views(groups@);
    let mut k: usize = 0;
    while k < groups.len()
        invariant
            k <= groups.len(),
            *store == *old(store),
            offer == on_sale(*store),
            with_groups(start, all, offer, until, k as int) == Ok::<CartDraft, BusinessError>(
                CartDraft { tickets: ledger@, items: items@, next_id },
            ),
        decreases groups.len() - k,
    {
        match add_group(
            &mut ledger,
            &mut items,
            &mut next_id,
            &store.catalog.ticket_types,
            &store.catalog.allotments,
            &groups[k],
            until,
        ) {
            Err(e) => {
                proof {
                    lemma_refusal_stays(start, all, offer, until, k + 1, all.len() as int);
                }
                return Err(e);
            },
            Ok(_) => {},
        }
        k += 1;
    }
    proof {
        lemma_groups_granted(start, all, offer, until, all.len() as int);
        lemma_first(store.orders@, Lookup::DefaultOf(user_id), store.orders@.len() as int);
    }
    let ghost before = store.orders@;
    store.ledger = ledger;
    store.next_id = next_id;
    match cart {
        Some(c) => {
            let order = Order {
                id: store.orders[c].id,
                user_id: store.orders[c].user_id,
                on_behalf_of_user_id: store.orders[c].on_behalf_of_user_id,
                order_type: store.orders[c].order_type,
                status: store.orders[c].status,
                items,
            };
            store.orders.set(c, order);
            proof {
                let after = store.orders@;
                assert(views(after) =~= views(before).update(
                    c as int,
                    OrderView { items: items@, ..before[c as int]@ },
                ));
                if old(store).wf() {
                    assert(item_ids_below(start.items, start.next_id)) by {
                        assert forall|j: int| 0 <= j < start.items.len() implies (
                        #[trigger] start.items[j]).id < start.next_id by {
                            assert(before[c as int].items@[j].id < start.next_id);
                        }
                    }
                    lemma_order_ids_below_more(before, old(store).next_id, next_id);
                    lemma_order_replaced(before, after, c as int, next_id);
                }
            }
        },
        None => {
            let ghost fresh = Order {
                id: cart_id,
                user_id,
                on_behalf_of_user_id: None,
                order_type: OrderTypes::Cart,
                status: OrderStatus::Draft,
                items,
            };
            store.orders.push(
                Order {
                    id: cart_id,
                    user_id,
                    on_behalf_of_user_id: None,
                    order_type: OrderTypes::Cart,
                    status: OrderStatus::Draft,
                    items,
                },
            );
            proof {
                assert(views(store.orders@) =~= views(before).push(
                    OrderView {
                        id: cart_id,
                        user_id,
                        on_behalf_of_user_id: None,
                        order_type: OrderTypes::Cart,
                        status: OrderStatus::Draft,
                        items: items@,
                    },
                ));
                assert(store.orders@ == before.push(fresh));
                if old(store).wf() {
                    assert forall|i: int| 0 <= i < before.len() implies !(is_cart(
                        #[trigger] before[i],
                    ) && before[i].user_id == user_id) by {
                        assert(!before[i].answers(Lookup::DefaultOf(user_id)));
                    }
                    lemma_order_added(before, fresh, old(store).next_id, next_id);
                }
            }
        },
    }
    Ok(CartResponse { cart_id })
}

/// Adds what the buyer asks for to the account's cart.
///
/// The requests of one ticket type and redemption code are taken together,
/// wherever they stand in the request, and their quantities are summed, so
/// that tickets are reserved once for each type and code. In steps: the
/// requests are cut into runs of equal type and code, each run is summed, the
/// sums of one type and code are merged, and the merged groups are added as
/// [`add_items`] says. So for the cutting `runs` of the requests that
/// [`is_chunking`] accepts, the result is what [`added`] gives for the merged
/// summaries of `runs`. All or nothing.
pub fn add(store: &mut Store, user_id: u128, request: &AddToCartRequest, now: i64) -> (r: Result<
    CartResponse,
    BusinessError,
>)
    ensures
        exists|runs: Seq<Seq<AddToCartRequestItem>>|
            is_chunking(request.items@, runs) && match r {
                Err(e) => #[trigger] added(*old(store), user_id, merged(summaries(runs)), now)
                    == Err::<CartOutcome, BusinessError>(e) && *final(store) == *old(store),
                Ok(response) => added(*old(store), user_id, merged(summaries(runs)), now) matches Ok(
                    o,
                ) && final(store).ledger@ == o.tickets && views(final(store).orders@) == o.orders
                    && final(store).next_id == o.next_id && response.cart_id == o.cart_id
                    && only_cart_changed(*old(store), *final(store)),
            },
        request.items@.len() == 0 ==> r == Err::<CartResponse, BusinessError>(
            BusinessError::EmptyRequest,
        ),
        old(store).wf() ==> final(store).wf(),
{
    let runs = chunk_by_key(&request.items);
    let sums = summarize(&runs);
    let asked = request.items.len();
    proof {
        let cut = run_views(runs@);
        assert(asked == request.items@.len());
        assert(cut.take(cut.len() as int) =~= cut);
        lemma_span_is_length(cut, cut.len() as int);
        assert(cut.flatten() == request.items@);
        assert(span_before(cut, cut.len() as int) == request.items@.len());
        lemma_summaries_weight(cut, cut.len() as int);
        assert(weight_before(summaries(cut), cut.len() as int) <= i128::MAX) by (nonlinear_arith)
            requires
                weight_before(summaries(cut), cut.len() as int) <= span_before(cut, cut.len() as int)
                    * 0x8000_0000_0000_0000,
                span_before(cut, cut.len() as int) <= 0xffff_ffff_ffff_ffff,
        ;
        assert(group_views(sums@).len() == sums@.len());
        assert(summaries(cut).len() == cut.len());
    }
    let groups = merge(&sums);
    let r = add_items(store, user_id, &groups, now);
    proof {
        let cut = run_views(runs@);
        assert(is_chunking(request.items@, cut));
        if request.items@.len() == 0 {
            if cut.len() > 0 {
                cut.lemma_flatten_length_ge_single_element_length(0);
                assert(cut[0].len() > 0);
            }
            assert(group_views(groups@) =~= Seq::<GroupView>::empty());
            assert(!asks_for_tickets(group_views(groups@)));
        }
    }
    r
}

/// A cart after taking tickets out: the ledger, the orders, and the cart's
/// identifier if the cart is still there.
pub struct RemovalOutcome {
    pub tickets: Seq<TicketInstance>,
    pub orders: Seq<OrderView>,
    pub cart_id: Option<u128>,
}

/// What taking tickets out of the account's cart comes to.
///
/// `CartNotFound` where the account has no cart, `ItemNotInCart` where the
/// cart has no item of that id. Where a quantity is given, so many tickets
/// are released and the item's quantity shrinks by as many,
/// `ReleaseExceedsReserved` where more are to be released than are reserved
/// for the item. Where none is given, the item leaves the cart and all that
/// is reserved for it is released. An item with nothing left leaves the cart,
/// and a cart with no item left is deleted.
pub open spec fn removed(store: Store, user_id: u128, request: RemoveCartRequest) -> Result<
    RemovalOutcome,
    BusinessError,
> {
    match first(store.orders@, Lookup::DefaultOf(user_id)) {
        None => Err(BusinessError::CartNotFound),
        Some(c) => {
            let cart = store.orders@[c];
            match first(cart.items@, Lookup::Id(request.cart_item_id)) {
                None => Err(BusinessError::ItemNotInCart),
                Some(i) => {
                    let item = cart.items@[i];
                    let sel = Selector::ReservedFor { order_item_id: item.id };
                    if request.quantity matches Some(q) && q > count(store.ledger@, sel) {
                        Err(BusinessError::ReleaseExceedsReserved)
                    } else {
                        let limit = match request.quantity {
                            Some(q) => q as int,
                            None => store.ledger@.len() as int,
                        };
                        let left = match request.quantity {
                            Some(q) => item.quantity - if q > 0 {
                                q as int
                            } else {
                                0
                            },
                            None => 0,
                        };
                        let items = if left <= 0 {
                            cart.items@.remove(i)
                        } else {
                            cart.items@.update(i, OrderItem { quantity: left as i64, ..item })
                        };
                        Ok(
                            RemovalOutcome {
                                tickets: rewritten(store.ledger@, sel, limit, Change::Free),
                                orders: if items.len() == 0 {
                                    views(store.orders@).remove(c)
                                } else {
                                    views(store.orders@).update(c, OrderView { items, ..cart@ })
                                },
                                cart_id: if items.len() == 0 {
                                    None
                                } else {
                                    Some(cart.id)
                                },
                            },
                        )
                    }
                },
            }
        },
    }
}

/// Takes an item, or some of its tickets, out of the account's cart and
/// releases the tickets.
///
/// What it comes to is stated by [`removed`]. Where the request is refused
/// the store is as it was. Answers with the cart, or with nothing where the
/// cart was deleted because its last item left; the account then has no
/// cart.
pub fn remove(store: &mut Store, user_id: u128, request: &RemoveCartRequest) -> (r: Result<
    Option<CartResponse>,
    BusinessError,
>)
    ensures
        match r {
            Err(e) => removed(*old(store), user_id, *request) == Err::<RemovalOutcome, BusinessError>(
                e,
            ) && *final(store) == *old(store),
            Ok(response) => removed(*old(store), user_id, *request) matches Ok(o)
                && final(store).ledger@ == o.tickets
                && views(final(store).orders@) == o.orders
                && final(store).next_id == old(store).next_id
                && only_cart_changed(*old(store), *final(store))
                && (match response {
                    Some(cart) => o.cart_id == Some(cart.cart_id),
                    None => o.cart_id is None,
                }),
        },
        old(store).wf() ==> final(store).wf(),
        old(store).wf() && r == Ok::<Option<CartResponse>, BusinessError>(None) ==> first(
            final(store).orders@,
            Lookup::DefaultOf(user_id),
        ) is None,
{
    let c = match position(&store.orders, &Lookup::DefaultOf(user_id)) {
        None => {
            return Err(BusinessError::CartNotFound);
        },
        Some(c) => c,
    };
    let i = match position(&store.orders[c].items, &Lookup::Id(request.cart_item_id)) {
        None => {
            return Err(BusinessError::ItemNotInCart);
        },
        Some(i) => i,
    };
    let item_id = store.orders[c].items[i].id;
    let held = store.orders[c].items[i].quantity;
    let sel = Selector::ReservedFor { order_item_id: item_id };
    if let Some(q) = request.quantity {
        if q > 0 && q as u64 > store.ledger.count(&sel) as u64 {
            return Err(BusinessError::ReleaseExceedsReserved);
        }
    }
    let ghost before = store.orders@;
    proof {
        lemma_first(before, Lookup::DefaultOf(user_id), before.len() as int);
        lemma_count_bounds(store.ledger@, sel, 0, store.ledger@.len() as int);
    }
    let left = match request.quantity {
        Some(q) => {
            let _released = store.ledger.release_tickets(item_id, q);
            held.checked_sub(if q > 0 {
                q
            } else {
                0
            })
        },
        None => {
            let n = store.ledger.len();
            let _released = store.ledger.rewrite(&sel, n, Change::Free);
            Some(0)
        },
    };
    let mut order = store.orders.remove(c);
    let ghost old_items = order.items@;
    match left {
        Some(left) if left > 0 => {
            let mut item = order.items[i].duplicate();
            item.quantity = left;
            order.items.set(i, item);
        },
        _ => {
            let _gone = order.items.remove(i);
        },
    }
    proof {
        assert forall|j: int| 0 <= j < order.items@.len() implies exists|k: int|
            0 <= k < old_items.len() && old_items[k].id == (#[trigger] order.items@[j]).id by {
            if order.items@.len() == old_items.len() {
                assert(old_items[j].id == order.items@[j].id);
            } else if j < i {
                assert(old_items[j].id == order.items@[j].id);
            } else {
                assert(old_items[j + 1].id == order.items@[j].id);
            }
        }
    }
    if order.items.len() == 0 {
        proof {
            assert(views(store.orders@) =~= views(before).remove(c as int));
            assert(store.orders@ == before.remove(c as int));
            lemma_order_removed(before, c as int, store.next_id);
            if old(store).wf() {
                let after = store.orders@;
                assert(is_cart(before[c as int]));
                assert forall|x: int| 0 <= x < after.len() implies !(#[trigger] after[x]).answers(
                    Lookup::DefaultOf(user_id),
                ) by {
                    assert(!(is_cart(after[x]) && after[x].user_id == before[c as int].user_id));
                }
                lemma_first(after, Lookup::DefaultOf(user_id), after.len() as int);
            }
        }
        Ok(None)
    } else {
        let cart_id = order.id;
        let ghost items = order.items@;
        store.orders.insert(c, order);
        proof {
            let after = store.orders@;
            assert(views(after) =~= views(before).update(
                c as int,
                OrderView { items, ..before[c as int]@ },
            ));
            if old(store).wf() {
                assert forall|j: int| 0 <= j < after[c as int].items@.len() implies (
                #[trigger] after[c as int].items@[j]).id < store.next_id by {
                    let k = choose|k: int|
                        0 <= k < old_items.len() && old_items[k].id == items[j].id;
                    assert(before[c as int].items@[k].id < store.next_id);
                }
                lemma_order_replaced(before, after, c as int, store.next_id);
            }
        }
        Ok(Some(CartResponse { cart_id }))
    }
}

/// The account's cart, if it has one.
pub fn show(store: &Store, user_id: u128) -> (r: Option<&Order>)
    ensures
        match r {
            Some(order) => first(store.orders@, Lookup::DefaultOf(user_id)) matches Some(c)
                && *order == store.orders@[c],
            None => first(store.orders@, Lookup::DefaultOf(user_id)) is None,
        },
{
    match position(&store.orders, &Lookup::DefaultOf(user_id)) {
        Some(c) => Some(&store.orders[c]),
        None => None,
    }
}

/// Cart emptying. Where no account has two carts and the last item leaves
/// an account's cart, the cart is deleted: no order that is left is a cart
/// of that account.
pub proof fn law_cart_emptying(store: Store, user_id: u128, request: RemoveCartRequest)
    requires
        one_cart_each(store.orders@),
        removed(store, user_id, request) matches Ok(o) && o.cart_id is None,
    ensures
        ({
            let o = removed(store, user_id, request)->Ok_0;
            &&& o.orders.len() == store.orders@.len() - 1
            &&& forall|i: int|
                0 <= i < o.orders.len() ==> !((#[trigger] o.orders[i]).user_id == user_id
                    && o.orders[i].order_type == OrderTypes::Cart && o.orders[i].status
                    == OrderStatus::Draft)
        }),
{
    let before = store.orders@;
    let o = removed(store, user_id, request)->Ok_0;
    lemma_first(before, Lookup::DefaultOf(user_id), before.len() as int);
    let c = first(before, Lookup::DefaultOf(user_id))->0;
    assert(is_cart(before[c]));
    assert forall|i: int| 0 <= i < o.orders.len() implies !((#[trigger] o.orders[i]).user_id
        == user_id && o.orders[i].order_type == OrderTypes::Cart && o.orders[i].status
        == OrderStatus::Draft) by {
        let b = if i < c {
            i
        } else {
            i + 1
        };
        assert(o.orders[i] == before[b]@);
        if before[b].user_id == user_id && is_cart(before[b]) {
            if b < c {
                assert(before[b].user_id != before[c].user_id);
            } else {
                assert(before[c].user_id != before[b].user_id);
            }
        }
    }
}


/// How an order is to be paid.
#[allow(inconsistent_fields)]
#[derive(Clone, Debug, PartialEq, Eq)]
pub enum PaymentRequest {
    /// A payment that was made elsewhere and is only recorded here.
    External { reference: String },
    /// A card, by a token of the provider; the card is stored for later
    /// charges if `save_payment_method` says so.
    Card { token: String, provider: String, save_payment_method: bool, set_default: bool },
    /// A stored payment method: the one with this provider, or the account's
    /// default.
    PaymentMethod { provider: Option<String> },
}

/// What a buyer asks for at checkout.
#[derive(Clone, Debug, PartialEq, Eq)]
pub struct CheckoutCartRequest {
    pub amount: i64,
    pub method: PaymentRequest,
}

/// Why a payment that was made elsewhere cannot be recorded on the order at
/// `now`, if it cannot: the account may not record such payments
/// (`Unauthorized`); there is no such order (`NoResults`); the order is not
/// a draft (`InvalidOrderStatus`); its owner has no default wallet for the
/// tickets to go to (`NoResults`); an item of the order no longer holds its
/// tickets (`InsufficientInventory`); or the order has a payment that still
/// counts, or no identifier is left (`PersistenceError`).
pub open spec fn external_refusal(store: Store, order_id: u128, user: User, now: i64) -> Option<
    BusinessError,
> {
    if !user.can_make_external_payments {
        Some(BusinessError::Unauthorized)
    } else {
        match first(store.orders@, Lookup::Id(order_id)) {
            None => Some(BusinessError::NoResults),
            Some(o) => if store.orders@[o].status != OrderStatus::Draft {
                Some(BusinessError::InvalidOrderStatus)
            } else if first(store.wallets@, Lookup::DefaultOf(store.orders@[o].user_id)) is None {
                Some(BusinessError::NoResults)
            } else if !fully_reserved(store.ledger@, store.orders@[o].items@, now) {
                Some(BusinessError::InsufficientInventory)
            } else if has_active_payment(store.payments@, order_id) || store.next_id == u128::MAX {
                Some(BusinessError::PersistenceError)
            } else {
                None
            },
        }
    }
}

/// What recording a payment that was made elsewhere comes to.
///
/// Where it is refused (see [`external_refusal`]) the store is as it was.
/// Else no provider is asked: the payment is recorded as completed under the
/// next identifier, for the provider `External` and with the reference given;
/// the order is paid; and the tickets that its items hold are sold to the
/// default wallet of the order's owner.
pub open spec fn external_payment(
    before: Store,
    after: Store,
    order_id: u128,
    reference: String,
    amount: i64,
    user: User,
    now: i64,
    r: Result<CheckoutResponse, BusinessError>,
) -> bool {
    match external_refusal(before, order_id, user, now) {
        Some(e) => r == Err::<CheckoutResponse, BusinessError>(e) && after == before,
        None => {
            let o = first(before.orders@, Lookup::Id(order_id))->0;
            let w = first(before.wallets@, Lookup::DefaultOf(before.orders@[o].user_id))->0;
            let payment = after.payments@.last();
            &&& r == Ok::<CheckoutResponse, BusinessError>(
                CheckoutResponse { payment_id: before.next_id },
            )
            &&& after == (Store {
                ledger: after.ledger,
                orders: after.orders,
                payments: after.payments,
                next_id: (before.next_id + 1) as u128,
                ..before
            })
            &&& after.payments@.len() == before.payments@.len() + 1
            &&& after.payments@.drop_last() == before.payments@
            &&& payment == (Payment {
                id: before.next_id,
                order_id,
                created_by: user.id,
                amount,
                provider: payment.provider,
                external_reference: reference,
                status: PaymentStatus::Completed,
                raw_data: payment.raw_data,
            })
            &&& payment.provider@ == "External"@
            &&& payment.raw_data@.len() == 0
            &&& views(after.orders@) == views(before.orders@).update(
                o,
                OrderView { status: OrderStatus::Paid, ..before.orders@[o]@ },
            )
            &&& after.ledger@ == purchased(
                before.ledger@,
                item_ids(before.orders@[o].items@),
                before.wallets@[w].id,
            )
        },
    }
}

/// Records a payment that was made elsewhere on an order and marks the
/// order as paid: see [`external_payment`].
pub fn checkout_external(
    store: &mut Store,
    order_id: u128,
    reference: &String,
    checkout_request: &CheckoutCartRequest,
    user: &User,
    now: i64,
) -> (r: Result<CheckoutResponse, BusinessError>)
    ensures
        external_payment(
            *old(store),
            *final(store),
            order_id,
            *reference,
            checkout_request.amount,
            *user,
            now,
            r,
        ),
        old(store).wf() ==> final(store).wf(),
{
    if !user.can_make_external_payments {
        return Err(BusinessError::Unauthorized);
    }
    let o = match position(&store.orders, &Lookup::Id(order_id)) {
        None => {
            return Err(BusinessError::NoResults);
        },
        Some(o) => o,
    };
    if store.orders[o].status != OrderStatus::Draft {
        return Err(BusinessError::InvalidOrderStatus);
    }
    let wallet_id = match position(&store.wallets, &Lookup::DefaultOf(store.orders[o].user_id)) {
        None => {
            return Err(BusinessError::NoResults);
        },
        Some(w) => store.wallets[w].id,
    };
    if !holds_in_full(&store.ledger, &store.orders[o].items, now) {
        return Err(BusinessError::InsufficientInventory);
    }
    if order_has_active_payment(&store.payments, order_id) || store.next_id == u128::MAX {
        return Err(BusinessError::PersistenceError);
    }
    let ghost before = *store;
    let payment_id = store.next_id;
    store.payments.push(
        Payment {
            id: payment_id,
            order_id,
            created_by: user.id,
            amount: checkout_request.amount,
            provider: "External".to_string(),
            external_reference: reference.clone(),
            status: PaymentStatus::Completed,
            raw_data: Vec::new(),
        },
    );
    store.next_id = payment_id + 1;
    proof {
        assert(store.payments@.drop_last() =~= before.payments@);
        if crate::store::one_active_payment_each(before.payments@) {
            assert forall|i: int, j: int|
                0 <= i < j < store.payments@.len() && (#[trigger] store.payments@[i]).is_active() && (
                #[trigger] store.payments@[j]).is_active() implies store.payments@[i].order_id
                != store.payments@[j].order_id by {
                assert(store.payments@[i] == before.payments@[i]);
                if j < before.payments@.len() {
                    assert(store.payments@[j] == before.payments@[j]);
                }
            }
        }
    }
    crate::checkout::pay_order(store, o, wallet_id);
    Ok(CheckoutResponse { payment_id })
}

/// Why a payment through a provider cannot be started, if it cannot: there
/// is no such order (`NoResults`); the order is not the account's own
/// (`NotOwner`); it is not a draft (`InvalidOrderStatus`); or the provider
/// is not known (`UnknownPaymentProvider`).
pub open spec fn payment_refusal(store: Store, order_id: u128, user: User, provider: Seq<char>) -> Option<
    BusinessError,
> {
    match first(store.orders@, Lookup::Id(order_id)) {
        None => Some(BusinessError::NoResults),
        Some(o) => if store.orders@[o].user_id != user.id {
            Some(BusinessError::NotOwner)
        } else if store.orders@[o].status != OrderStatus::Draft {
            Some(BusinessError::InvalidOrderStatus)
        } else if !is_known_provider(provider) {
            Some(BusinessError::UnknownPaymentProvider)
        } else {
            None
        },
    }
}

/// What the first step of a payment through a provider comes to.
///
/// A payment that cannot be started (see [`payment_refusal`]) ends the
/// checkout with that refusal. Else the token to charge is resolved. With a
/// stored payment it is the token of the method that the account has stored
/// with the provider, `NoStoredPaymentMethod` where it has none. Else a token
/// must be given (`MissingToken`); where the card is to be saved the step
/// asks the provider to update the token of the stored method, or to make a
/// token for repeated charges where the account has stored none; where it is
/// not, the charge goes on the token as given. With the token at hand the
/// step asks to authorize the charge.
pub open spec fn processor_step(
    store: Store,
    order_id: u128,
    token: Option<String>,
    amount: i64,
    user: User,
    provider: String,
    use_stored_payment: bool,
    save_payment_method: bool,
    set_default: bool,
    config: Config,
    step: Step,
) -> bool {
    match payment_refusal(store, order_id, user, provider@) {
        Some(e) => step == refused(e),
        None => {
            let methods = store.payment_methods@;
            let method = method_of(methods, user.id, provider@);
            let awaiting_auth = Stage::AwaitingAuth { order_id, user_id: user.id, amount, provider };
            if use_stored_payment {
                match method {
                    None => step == refused(BusinessError::NoStoredPaymentMethod),
                    Some(m) => step.stage == awaiting_auth && is_auth_for(
                        step.action,
                        methods[m].provider,
                        amount,
                        config,
                        order_id,
                    ),
                }
            } else {
                match token {
                    None => step == refused(BusinessError::MissingToken),
                    Some(t) => if save_payment_method {
                        match method {
                            Some(m) => step == (Step {
                                stage: Stage::AwaitingRepeatToken {
                                    order_id,
                                    user_id: user.id,
                                    amount,
                                    provider,
                                    method_id: Some(methods[m].id),
                                    set_default,
                                },
                                action: Action::Ask(
                                    Command::UpdateRepeatToken {
                                        repeat_token: methods[m].provider,
                                        token: t,
                                        description: config.token_description,
                                    },
                                ),
                            }),
                            None => step == (Step {
                                stage: Stage::AwaitingRepeatToken {
                                    order_id,
                                    user_id: user.id,
                                    amount,
                                    provider,
                                    method_id: None,
                                    set_default,
                                },
                                action: Action::Ask(
                                    Command::CreateTokenForRepeatCharges {
                                        token: t,
                                        description: config.token_description,
                                    },
                                ),
                            }),
                        }
                    } else {
                        step.stage == awaiting_auth && is_auth_for(
                            step.action,
                            t,
                            amount,
                            config,
                            order_id,
                        )
                    },
                }
            }
        },
    }
}

/// The place of the token, if one is given.
pub open spec fn token_value(token: Option<&String>) -> Option<String> {
    match token {
        Some(t) => Some(*t),
        None => None,
    }
}

/// Starts the payment of an order through a provider: see
/// [`processor_step`]. The store is only read.
pub fn checkout_payment_processor(
    store: &Store,
    order_id: u128,
    token: Option<&String>,
    req: &CheckoutCartRequest,
    auth_user: &User,
    provider_name: &String,
    use_stored_payment: bool,
    save_payment_method: bool,
    set_default: bool,
    config: &Config,
    service_locator: &ServiceLocator,
) -> (step: Step)
    ensures
        processor_step(
            *store,
            order_id,
            token_value(token),
            req.amount,
            *auth_user,
            *provider_name,
            use_stored_payment,
            save_payment_method,
            set_default,
            *config,
            step,
        ),
{
    let o = match position(&store.orders, &Lookup::Id(order_id)) {
        None => {
            return refuse(BusinessError::NoResults);
        },
        Some(o) => o,
    };
    if store.orders[o].user_id != auth_user.id {
        return refuse(BusinessError::NotOwner);
    }
    if store.orders[o].status != OrderStatus::Draft {
        return refuse(BusinessError::InvalidOrderStatus);
    }
    match service_locator.create_payment_processor(provider_name) {
        Err(e) => {
            return refuse(e);
        },
        Ok(_) => {},
    }
    let method = find_method(&store.payment_methods, auth_user.id, provider_name);
    if use_stored_payment {
        return match method {
            None => refuse(BusinessError::NoStoredPaymentMethod),
            Some(m) => ask_auth(
                order_id,
                auth_user.id,
                req.amount,
                provider_name.clone(),
                store.payment_methods[m].provider.clone(),
                config,
            ),
        };
    }
    let token = match token {
        None => {
            return refuse(BusinessError::MissingToken);
        },
        Some(token) => token.clone(),
    };
    if !save_payment_method {
        return ask_auth(order_id, auth_user.id, req.amount, provider_name.clone(), token, config);
    }
    match method {
        Some(m) => Step {
            stage: Stage::AwaitingRepeatToken {
                order_id,
                user_id: auth_user.id,
                amount: req.amount,
                provider: provider_name.clone(),
                method_id: Some(store.payment_methods[m].id),
                set_default,
            },
            action: Action::Ask(
                Command::UpdateRepeatToken {
                    repeat_token: store.payment_methods[m].provider.clone(),
                    token,
                    description: config.token_description.clone(),
                },
            ),
        },
        None => Step {
            stage: Stage::AwaitingRepeatToken {
                order_id,
                user_id: auth_user.id,
                amount: req.amount,
                provider: provider_name.clone(),
                method_id: None,
                set_default,
            },
            action: Action::Ask(
                Command::CreateTokenForRepeatCharges {
                    token,
                    description: config.token_description.clone(),
                },
            ),
        },
    }
}

/// Whether the asset has an identity on the external ledger.
pub open spec fn is_provisioned(assets: Seq<Asset>, asset_id: u128) -> bool {
    first(assets, Lookup::Id(asset_id)) matches Some(a) && assets[a].blockchain_asset_id is Some
}

/// Whether every asset of the plan has an identity on the external ledger.
pub open spec fn all_provisioned(assets: Seq<Asset>, plan: Seq<DeliveryView>) -> bool {
    forall|k: int| 0 <= k < plan.len() ==> is_provisioned(assets, (#[trigger] plan[k]).asset_id)
}

/// Whether every asset of the plan has an identity on the external ledger,
/// computed.
pub fn provisioned(assets: &Vec<Asset>, plan: &Vec<Delivery>) -> (b: bool)
    ensures
        b == all_provisioned(assets@, delivery_views(plan@)),
{
    let mut k: usize = 0;
    while k < plan.len()
        invariant
            k <= plan.len(),
            forall|j: int|
                0 <= j < k ==> is_provisioned(assets@, (#[trigger] delivery_views(plan@)[j]).asset_id),
        decreases plan.len() - k,
    {
        let found = match position(assets, &Lookup::Id(plan[k].asset_id)) {
            None => false,
            Some(a) => assets[a].blockchain_asset_id.is_some(),
        };
        if !found {
            assert(!is_provisioned(assets@, delivery_views(plan@)[k as int].asset_id));
            return false;
        }
        k += 1;
    }
    true
}

/// Whether the account has a cart that was checked out already: an order of
/// type `Cart` that is no draft any more.
pub open spec fn has_closed_cart(orders: Seq<Order>, user_id: u128) -> bool {
    exists|i: int|
        0 <= i < orders.len() && (#[trigger] orders[i]).user_id == user_id && orders[i].order_type
            == OrderTypes::Cart && orders[i].status != OrderStatus::Draft
}

/// Whether the account has a cart that was checked out already, computed.
pub fn closed_cart_exists(orders: &Vec<Order>, user_id: u128) -> (b: bool)
    ensures
        b == has_closed_cart(orders@, user_id),
{
    let mut i: usize = 0;
    while i < orders.len()
        invariant
            i <= orders.len(),
            forall|j: int|
                0 <= j < i ==> !((#[trigger] orders@[j]).user_id == user_id && orders@[j].order_type
                    == OrderTypes::Cart && orders@[j].status != OrderStatus::Draft),
        decreases orders.len() - i,
    {
        let o = &orders[i];
        if o.user_id == user_id && o.order_type == OrderTypes::Cart && o.status
            != OrderStatus::Draft {
            return true;
        }
        i += 1;
    }
    false
}

/// What the first step of the checkout of an account's cart comes to.
///
/// An account without a cart is refused: with `InvalidOrderStatus` where it
/// has a cart that was checked out already, so that a checkout that is asked
/// for again is no second attempt, and with `CartNotFound` else. Before any
/// payment is touched, every asset that backs a ticket of the cart must have
/// an identity on the external ledger, else `AssetNotProvisioned`, and every
/// item of the cart must still hold its tickets at `now`, else
/// `InsufficientInventory`. Then by the way of paying:
/// - a payment made elsewhere is recorded at once (see
///   [`external_payment`]), and the settlement starts with the first delivery
///   of the plan for the cart's tickets, to the account's default wallet;
/// - a stored payment method is charged through its provider, the one
///   named or else the one of the account's default method,
///   `NoDefaultPaymentMethod` where it has none (see [`processor_step`]);
/// - a card is charged through its provider (see [`processor_step`]).
/// The two last ways leave the store as it is.
pub open spec fn checkout_step(
    before: Store,
    after: Store,
    user: User,
    request: CheckoutCartRequest,
    config: Config,
    now: i64,
    step: Step,
) -> bool {
    match first(before.orders@, Lookup::DefaultOf(user.id)) {
        None => after == before && step == refused(
            if has_closed_cart(before.orders@, user.id) {
                BusinessError::InvalidOrderStatus
            } else {
                BusinessError::CartNotFound
            },
        ),
        Some(c) => {
            let cart = before.orders@[c];
            let plan = order_plan(before.ledger@, cart.items@);
            if !all_provisioned(before.assets@, plan) {
                after == before && step == refused(BusinessError::AssetNotProvisioned)
            } else if !fully_reserved(before.ledger@, cart.items@, now) {
                after == before && step == refused(BusinessError::InsufficientInventory)
            } else {
                match request.method {
                    PaymentRequest::External { reference } => match external_refusal(
                        before,
                        cart.id,
                        user,
                        now,
                    ) {
                        Some(e) => after == before && step == refused(e),
                        None => external_payment(
                            before,
                            after,
                            cart.id,
                            reference,
                            request.amount,
                            user,
                            now,
                            Ok(CheckoutResponse { payment_id: before.next_id }),
                        ) && match first(before.wallets@, Lookup::DefaultOf(user.id)) {
                            None => step == refused(BusinessError::NoResults),
                            Some(w) => starts_settlement(
                                after,
                                before.next_id,
                                before.wallets@[w].public_key,
                                plan,
                                step,
                            ),
                        },
                    },
                    PaymentRequest::PaymentMethod { provider } => after == before && match provider {
                        Some(name) => processor_step(
                            before,
                            cart.id,
                            None,
                            request.amount,
                            user,
                            name,
                            true,
                            false,
                            false,
                            config,
                            step,
                        ),
                        None => match first(before.payment_methods@, Lookup::DefaultOf(user.id)) {
                            None => step == refused(BusinessError::NoDefaultPaymentMethod),
                            Some(m) => processor_step(
                                before,
                                cart.id,
                                None,
                                request.amount,
                                user,
                                before.payment_methods@[m].name,
                                true,
                                false,
                                false,
                                config,
                                step,
                            ),
                        },
                    },
                    PaymentRequest::Card {
                        token,
                        provider,
                        save_payment_method,
                        set_default,
                    } => after == before && processor_step(
                        before,
                        cart.id,
                        Some(token),
                        request.amount,
                        user,
                        provider,
                        false,
                        save_payment_method,
                        set_default,
                        config,
                        step,
                    ),
                }
            }
        },
    }
}

/// Starts the checkout of the account's cart at the instant `now`: see
/// [`checkout_step`]. The steps after it are taken by
/// [`crate::checkout::advance`]. The cart is found by its account and then
/// addressed by its id; in a valid store that is one and the same order (see
/// [`crate::store::law_ids_name_one_record`]).
pub fn checkout(
    store: &mut Store,
    user: &User,
    request: &CheckoutCartRequest,
    config: &Config,
    service_locator: &ServiceLocator,
    now: i64,
) -> (step: Step)
    ensures
        checkout_step(*old(store), *final(store), *user, *request, *config, now, step),
        old(store).wf() ==> final(store).wf(),
{
    let c = match position(&store.orders, &Lookup::DefaultOf(user.id)) {
        None => {
            return if closed_cart_exists(&store.orders, user.id) {
                refuse(BusinessError::InvalidOrderStatus)
            } else {
                refuse(BusinessError::CartNotFound)
            };
        },
        Some(c) => c,
    };
    let cart_id = store.orders[c].id;
    let plan = plan_deliveries(&store.ledger, &store.orders[c].items);
    if !provisioned(&store.assets, &plan) {
        return refuse(BusinessError::AssetNotProvisioned);
    }
    if !holds_in_full(&store.ledger, &store.orders[c].items, now) {
        return refuse(BusinessError::InsufficientInventory);
    }
    let ghost before = *store;
    match &request.method {
        PaymentRequest::External { reference } => {
            match checkout_external(store, cart_id, reference, request, user, now) {
                Err(e) => refuse(e),
                Ok(response) => match position(&store.wallets, &Lookup::DefaultOf(user.id)) {
                    None => refuse(BusinessError::NoResults),
                    Some(w) => {
                        let key = store.wallets[w].public_key.clone();
                        let ghost planned = plan;
                        let step = settle_next(store, response.payment_id, key, plan, 0);
                        proof {
                            assert(is_next_delivery(
                                *store,
                                before.next_id,
                                before.wallets@[w as int].public_key,
                                planned,
                                0,
                                step,
                            ));
                            assert(starts_settlement(
                                *store,
                                before.next_id,
                                before.wallets@[w as int].public_key,
                                order_plan(before.ledger@, before.orders@[c as int].items@),
                                step,
                            ));
                        }
                        step
                    },
                },
            }
        },
        PaymentRequest::PaymentMethod { provider } => {
            match provider {
                Some(name) => checkout_payment_processor(
                    store,
                    cart_id,
                    None,
                    request,
                    user,
                    name,
                    true,
                    false,
                    false,
                    config,
                    service_locator,
                ),
                None => match position(&store.payment_methods, &Lookup::DefaultOf(user.id)) {
                    None => refuse(BusinessError::NoDefaultPaymentMethod),
                    Some(m) => checkout_payment_processor(
                        store,
                        cart_id,
                        None,
                        request,
                        user,
                        &store.payment_methods[m].name,
                        true,
                        false,
                        false,
                        config,
                        service_locator,
                    ),
                },
            }
        },
        PaymentRequest::Card { token, provider, save_payment_method, set_default } => {
            checkout_payment_processor(
                store,
                cart_id,
                Some(token),
                request,
                user,
                provider,
                false,
                *save_payment_method,
                *set_default,
                config,
                service_locator,
            )
        },
    }
}


} // verus!
