//! From an order to its settlement: which tickets an order holds, what has
//! to move on the external ledger when it is paid, and how the tickets pass
//! to the buyer.

use crate::inventory::{
    changed, count, count_before, ledger_wf, lemma_count_bounds, matching, rewritten, Change, Ledger, Selector, TicketInstance, TicketInstanceStatus,
};
use crate::orders::OrderItem;
use std::collections::HashMap;
use vstd::prelude::*;

verus! {

/// What moves in one transfer on the external ledger: tokens of one asset,
/// out of the wallet that holds them.
#[derive(Clone, Debug, PartialEq, Eq)]
pub struct Delivery {
    pub asset_id: u128,
    /// The wallet that the tokens leave.
    pub wallet_id: u128,
    pub token_ids: Vec<u64>,
}

/// A delivery as contracts speak of it: its tokens as a sequence.
pub struct DeliveryView {
    pub asset_id: u128,
    pub wallet_id: u128,
    pub token_ids: Seq<u64>,
}

impl View for Delivery {
    type V = DeliveryView;

    open spec fn view(&self) -> DeliveryView {
        DeliveryView { asset_id: self.asset_id, wallet_id: self.wallet_id, token_ids: self.token_ids@ }
    }
}

/// The deliveries of a plan as contracts speak of them.
pub open spec fn delivery_views(plan: Seq<Delivery>) -> Seq<DeliveryView> {
    Seq::new(plan.len(), |i: int| plan[i]@)
}

/// The place of the first delivery among the first `n` of a plan that is for
/// this asset.
pub open spec fn slot_before(plan: Seq<DeliveryView>, asset_id: u128, n: int) -> Option<int>
    decreases n,
{
    if n <= 0 {
        None
    } else {
        match slot_before(plan, asset_id, n - 1) {
            Some(i) => Some(i),
            None => if plan[n - 1].asset_id == asset_id {
                Some(n - 1)
            } else {
                None
            },
        }
    }
}

/// The place of the plan's delivery for this asset.
pub open spec fn slot_of(plan: Seq<DeliveryView>, asset_id: u128) -> Option<int> {
    slot_before(plan, asset_id, plan.len() as int)
}

/// A slot found among the first deliveries is the slot found among all, and
/// what is found is in range and for the asset.
pub proof fn lemma_slot_stays(plan: Seq<DeliveryView>, asset_id: u128, m: int, n: int)
    requires
        0 <= m <= n,
    ensures
        slot_before(plan, asset_id, m) is Some ==> slot_before(plan, asset_id, n) == slot_before(
            plan,
            asset_id,
            m,
        ),
        slot_before(plan, asset_id, n) matches Some(i) ==> 0 <= i < n && plan[i].asset_id
            == asset_id,
    decreases n,
{
    if n > m {
        lemma_slot_stays(plan, asset_id, m, n - 1);
    } else if n > 0 {
        lemma_slot_stays(plan, asset_id, n - 1, n - 1);
    }
}

/// The plan with one more ticket: its token joins the delivery of its asset;
/// where the plan has none, a new delivery out of the ticket's wallet is
/// added at the end.
pub open spec fn plan_with(plan: Seq<DeliveryView>, t: TicketInstance) -> Seq<DeliveryView> {
    match slot_of(plan, t.asset_id) {
        Some(i) => plan.update(
            i,
            DeliveryView { token_ids: plan[i].token_ids.push(t.token_id), ..plan[i] },
        ),
        None => plan.push(
            DeliveryView { asset_id: t.asset_id, wallet_id: t.wallet_id, token_ids: seq![t.token_id] },
        ),
    }
}

/// The plan for some tickets: one delivery for each asset among them, in
/// the order in which the assets first occur, each with the tokens of its
/// tickets in their order, out of the wallet of the first of them.
pub open spec fn plan_of(tickets: Seq<TicketInstance>) -> Seq<DeliveryView>
    decreases tickets.len(),
{
    if tickets.len() == 0 {
        Seq::empty()
    } else {
        plan_with(plan_of(tickets.drop_last()), tickets.last())
    }
}

/// The tickets that the first `n` items hold in the ledger: item after item,
/// and for each item in ledger order.
pub open spec fn held_tickets(s: Seq<TicketInstance>, items: Seq<OrderItem>, n: int) -> Seq<
    TicketInstance,
>
    decreases n,
{
    if n <= 0 {
        Seq::empty()
    } else {
        held_tickets(s, items, n - 1) + matching(
            s,
            Selector::HeldBy { order_item_id: items[n - 1].id },
        )
    }
}

/// The plan for the tickets that an order's items hold.
pub open spec fn order_plan(s: Seq<TicketInstance>, items: Seq<OrderItem>) -> Seq<DeliveryView> {
    plan_of(held_tickets(s, items, items.len() as int))
}

/// Whether no two deliveries of a plan are for the same asset.
pub open spec fn one_delivery_each(plan: Seq<DeliveryView>) -> bool {
    forall|i: int, j: int|
        0 <= i < j < plan.len() ==> (#[trigger] plan[i]).asset_id != (#[trigger] plan[j]).asset_id
}

/// Where no delivery among the first `n` is found for an asset, none of them
/// is for it.
pub proof fn lemma_no_slot(plan: Seq<DeliveryView>, asset_id: u128, n: int)
    requires
        0 <= n,
        slot_before(plan, asset_id, n) is None,
    ensures
        forall|i: int| 0 <= i < n ==> (#[trigger] plan[i]).asset_id != asset_id,
    decreases n,
{
    if n > 0 {
        lemma_no_slot(plan, asset_id, n - 1);
    }
}

/// A plan has one delivery for each asset: no asset occurs twice in it,
/// and every ticket's asset occurs in it.
pub proof fn law_one_delivery_each(tickets: Seq<TicketInstance>)
    ensures
        one_delivery_each(plan_of(tickets)),
        forall|k: int|
            0 <= k < tickets.len() ==> slot_of(plan_of(tickets), (#[trigger] tickets[k]).asset_id)
                is Some,
    decreases tickets.len(),
{
    if tickets.len() > 0 {
        let head = tickets.drop_last();
        let t = tickets.last();
        let before = plan_of(head);
        let plan = plan_of(tickets);
        law_one_delivery_each(head);
        lemma_slot_stays(before, t.asset_id, before.len() as int, before.len() as int);
        if slot_of(before, t.asset_id) is None {
            lemma_no_slot(before, t.asset_id, before.len() as int);
        }
        assert forall|i: int| 0 <= i < before.len() implies (#[trigger] plan[i]).asset_id
            == before[i].asset_id by {}
        assert forall|i: int, j: int| 0 <= i < j < plan.len() implies (#[trigger] plan[i]).asset_id
            != (#[trigger] plan[j]).asset_id by {
            if j < before.len() {
                assert(before[i].asset_id != before[j].asset_id);
            }
        }
        assert forall|k: int| 0 <= k < tickets.len() implies slot_of(
            plan,
            (#[trigger] tickets[k]).asset_id,
        ) is Some by {
            let a = tickets[k].asset_id;
            if k < head.len() {
                assert(head[k] == tickets[k]);
                lemma_slot_stays(before, a, before.len() as int, before.len() as int);
                let i = slot_of(before, a)->0;
                lemma_slot_found(plan, a, i);
            } else {
                if slot_of(before, a) is Some {
                    lemma_slot_found(plan, a, slot_of(before, a)->0);
                } else {
                    lemma_slot_found(plan, a, before.len() as int);
                }
            }
        }
    }
}

/// A delivery for an asset is found.
pub proof fn lemma_slot_found(plan: Seq<DeliveryView>, asset_id: u128, i: int)
    requires
        0 <= i < plan.len(),
        plan[i].asset_id == asset_id,
    ensures
        slot_of(plan, asset_id) is Some,
{
    if slot_before(plan, asset_id, i + 1) is Some {
        lemma_slot_stays(plan, asset_id, i + 1, plan.len() as int);
    }
}

/// Whether the index knows the plan: to every asset that the plan has a
/// delivery for it gives the place of that delivery, and it knows no other
/// asset.
pub open spec fn indexes(index: Map<u128, usize>, plan: Seq<DeliveryView>) -> bool {
    forall|a: u128|
        #![trigger index.contains_key(a)]
        #![trigger slot_of(plan, a)]
        match slot_of(plan, a) {
            Some(i) => index.contains_key(a) && index[a] == i,
            None => !index.contains_key(a),
        }
}

/// Plans that are for the same assets at their first `n` places give an
/// asset the same place among them.
pub proof fn lemma_same_slots(p: Seq<DeliveryView>, q: Seq<DeliveryView>, asset_id: u128, n: int)
    requires
        0 <= n <= p.len(),
        n <= q.len(),
        forall|i: int| 0 <= i < n ==> (#[trigger] p[i]).asset_id == q[i].asset_id,
    ensures
        slot_before(p, asset_id, n) == slot_before(q, asset_id, n),
    decreases n,
{
    if n > 0 {
        lemma_same_slots(p, q, asset_id, n - 1);
        assert(p[n - 1].asset_id == q[n - 1].asset_id);
    }
}

/// Where the deliveries stand after one more ticket: where they stood, and
/// the delivery of the ticket's asset at the end if it is a new one.
pub proof fn lemma_slots_with(plan: Seq<DeliveryView>, t: TicketInstance, asset_id: u128)
    ensures
        slot_of(plan_with(plan, t), asset_id) == if slot_of(plan, asset_id) is None && asset_id
            == t.asset_id {
            Some(plan.len() as int)
        } else {
            slot_of(plan, asset_id)
        },
{
    let after = plan_with(plan, t);
    let n = plan.len() as int;
    lemma_slot_stays(plan, t.asset_id, n, n);
    if slot_of(plan, t.asset_id) is Some {
        lemma_same_slots(after, plan, asset_id, n);
    } else {
        assert forall|i: int| 0 <= i < n implies (#[trigger] after[i]).asset_id
            == plan[i].asset_id by {}
        lemma_same_slots(after, plan, asset_id, n);
        assert(after[n].asset_id == t.asset_id);
    }
}

/// Adds one ticket to a plan, by an index that knows the plan.
fn add_to_plan(plan: &mut Vec<Delivery>, index: &mut HashMap<u128, usize>, t: &TicketInstance)
    requires
        indexes(old(index)@, delivery_views(old(plan)@)),
    ensures
        delivery_views(final(plan)@) == plan_with(delivery_views(old(plan)@), *t),
        indexes(final(index)@, delivery_views(final(plan)@)),
{
    broadcast use vstd::std_specs::hash::group_hash_axioms;

    let ghost before = delivery_views(plan@);
    proof {
        lemma_slot_stays(before, t.asset_id, before.len() as int, before.len() as int);
        assert forall|a: u128| #[trigger]
            slot_of(plan_with(before, *t), a) == if slot_of(before, a) is None && a == t.asset_id {
                Some(before.len() as int)
            } else {
                slot_of(before, a)
            } by {
            lemma_slots_with(before, *t, a);
        }
    }
    let slot = match index.get(&t.asset_id) {
        Some(i) => Some(*i),
        None => None,
    };
    match slot {
        Some(i) => {
            assert(slot_of(before, t.asset_id) == Some(i as int));
            let mut delivery = plan.remove(i);
            delivery.token_ids.push(t.token_id);
            plan.insert(i, delivery);
            assert(delivery_views(plan@) =~= plan_with(before, *t));
        },
        None => {
            assert(slot_of(before, t.asset_id) is None);
            let mut token_ids: Vec<u64> = Vec::new();
            token_ids.push(t.token_id);
            index.insert(t.asset_id, plan.len());
            plan.push(Delivery { asset_id: t.asset_id, wallet_id: t.wallet_id, token_ids });
            assert(delivery_views(plan@) =~= plan_with(before, *t));
        },
    }
}

/// Plans what has to move on the external ledger for the tickets that the
/// items of an order hold. The deliveries are found by an index from asset
/// to place while the plan is made; the plan itself keeps them in the order
/// in which the assets first occur, which is the order in which they are
/// made.
pub fn plan_deliveries(ledger: &Ledger, items: &Vec<OrderItem>) -> (plan: Vec<Delivery>)
    ensures
        delivery_views(plan@) == order_plan(ledger@, items@),
{
    let mut plan: Vec<Delivery> = Vec::new();
    let mut index: HashMap<u128, usize> = HashMap::new();
    let ghost mut done: Seq<TicketInstance> = Seq::empty();
    let mut k: usize = 0;
    assert(delivery_views(plan@) =~= plan_of(done));
    while k < items.len()
        invariant
            k <= items.len(),
            done == held_tickets(ledger@, items@, k as int),
            delivery_views(plan@) == plan_of(done),
            indexes(index@, delivery_views(plan@)),
        decreases items.len() - k,
    {
        let tickets = ledger.select(&Selector::HeldBy { order_item_id: items[k].id });
        let mut j: usize = 0;
        assert(done + tickets@.take(0) =~= done);
        while j < tickets.len()
            invariant
                j <= tickets.len(),
                delivery_views(plan@) == plan_of(done + tickets@.take(j as int)),
                indexes(index@, delivery_views(plan@)),
            decreases tickets.len() - j,
        {
            add_to_plan(&mut plan, &mut index, &tickets[j]);
            proof {
                let next = done + tickets@.take(j + 1);
                assert(next.drop_last() =~= done + tickets@.take(j as int));
                assert(next.last() == tickets@[j as int]);
            }
            j += 1;
        }
        proof {
            assert(tickets@.take(tickets@.len() as int) =~= tickets@);
            done = done + tickets@;
        }
        k += 1;
    }
    plan
}

/// A ticket as it is once sold to the owner of a wallet: purchased if it
/// was reserved, in the buyer's wallet, and bound to no transfer.
pub open spec fn sold(t: TicketInstance, wallet_id: u128) -> TicketInstance {
    changed(
        if t.status == TicketInstanceStatus::Reserved {
            changed(t, Change::Purchase)
        } else {
            t
        },
        Change::Handover { wallet_id },
    )
}

/// The ids of some items.
pub open spec fn item_ids(items: Seq<OrderItem>) -> Seq<u128> {
    Seq::new(items.len(), |i: int| items[i].id)
}

/// Whether the ticket is held by one of the items with these ids.
pub open spec fn held_among(t: TicketInstance, ids: Seq<u128>) -> bool {
    t.order_item_id matches Some(id) && ids.contains(id)
}

/// The ledger content after the tickets that the items hold are sold to the
/// owner of a wallet.
pub open spec fn purchased(s: Seq<TicketInstance>, ids: Seq<u128>, wallet_id: u128) -> Seq<
    TicketInstance,
> {
    Seq::new(
        s.len(),
        |i: int|
            if held_among(s[i], ids) {
                sold(s[i], wallet_id)
            } else {
                s[i]
            },
    )
}

/// Selling keeps a valid ledger valid.
pub proof fn lemma_purchase_keeps_wf(s: Seq<TicketInstance>, ids: Seq<u128>, wallet_id: u128)
    requires
        ledger_wf(s),
    ensures
        ledger_wf(purchased(s, ids, wallet_id)),
{
    let r = purchased(s, ids, wallet_id);
    assert forall|i: int| 0 <= i < r.len() implies (#[trigger] r[i]).wf() && r[i].id == s[i].id by {
        assert(s[i].wf());
    }
    assert forall|i: int, j: int| 0 <= i < j < r.len() implies (#[trigger] r[i]).id != (
    #[trigger] r[j]).id by {
        assert(r[i].id == s[i].id);
        assert(r[j].id == s[j].id);
    }
}

/// Sells the tickets that the items of an order hold to the owner of a
/// wallet: every reserved one becomes purchased, and all of them move to the
/// wallet.
pub fn purchase_items(ledger: &mut Ledger, items: &Vec<OrderItem>, wallet_id: u128)
    ensures
        final(ledger)@ == purchased(old(ledger)@, item_ids(items@), wallet_id),
        old(ledger).wf() ==> final(ledger).wf(),
{
    let ghost s = ledger@;
    let ghost ids = item_ids(items@);
    let n = ledger.len();
    let mut k: usize = 0;
    assert(ledger@ =~= purchased(s, ids.take(0), wallet_id));
    while k < items.len()
        invariant
            k <= items.len(),
            n == s.len(),
            ids == item_ids(items@),
            ledger@ == purchased(s, ids.take(k as int), wallet_id),
        decreases items.len() - k,
    {
        let id = items[k].id;
        let ghost cur = ledger@;
        let reserved = Selector::ReservedFor { order_item_id: id };
        let held = Selector::HeldBy { order_item_id: id };
        let hand = Change::Handover { wallet_id };
        ledger.commit_purchase(id);
        let ghost mid = ledger@;
        ledger.rewrite(&held, n, hand);
        proof {
            let ids0 = ids.take(k as int);
            let ids1 = ids.take(k + 1);
            assert(ids1 == ids0.push(id));
            assert forall|i: int| 0 <= i < s.len() implies #[trigger] ledger@[i] == purchased(
                s,
                ids1,
                wallet_id,
            )[i] by {
                lemma_count_bounds(cur, reserved, 0, i);
                lemma_count_bounds(mid, held, 0, i);
                assert(cur[i] == purchased(s, ids0, wallet_id)[i]);
                assert(mid[i] == rewritten(cur, reserved, cur.len() as int, Change::Purchase)[i]);
                assert(ledger@[i] == rewritten(mid, held, n as int, hand)[i]);
                assert(held_among(s[i], ids1) <==> held_among(s[i], ids0) || s[i].order_item_id
                    == Some(id)) by {
                    if s[i].order_item_id is Some {
                        let x = s[i].order_item_id->0;
                        if ids1.contains(x) {
                            let j = choose|j: int| 0 <= j < ids1.len() && ids1[j] == x;
                            if j < k {
                                assert(ids0[j] == x);
                            }
                        }
                        if ids0.contains(x) {
                            let j = choose|j: int| 0 <= j < ids0.len() && ids0[j] == x;
                            assert(ids1[j] == x);
                        }
                        if x == id {
                            assert(ids1[k as int] == x);
                        }
                    }
                }
            }
            assert(ledger@ =~= purchased(s, ids1, wallet_id));
        }
        k += 1;
    }
    proof {
        assert(ids.take(ids.len() as int) == ids);
        if ledger_wf(s) {
            lemma_purchase_keeps_wf(s, ids, wallet_id);
        }
    }
}

/// Whether every item still holds its tickets at `now`: as many instances
/// as the item's quantity says are reserved for it, with a hold that has not
/// run out.
pub open spec fn fully_reserved(s: Seq<TicketInstance>, items: Seq<OrderItem>, now: i64) -> bool {
    forall|j: int|
        0 <= j < items.len() ==> count(
            s,
            Selector::Holding { order_item_id: (#[trigger] items[j]).id, now },
        ) == items[j].quantity
}

/// Whether every item still holds its tickets at `now`, computed.
pub fn holds_in_full(ledger: &Ledger, items: &Vec<OrderItem>, now: i64) -> (b: bool)
    ensures
        b == fully_reserved(ledger@, items@, now),
{
    let mut j: usize = 0;
    while j < items.len()
        invariant
            j <= items.len(),
            forall|k: int|
                0 <= k < j ==> count(
                    ledger@,
                    Selector::Holding { order_item_id: (#[trigger] items@[k]).id, now },
                ) == items@[k].quantity,
        decreases items.len() - j,
    {
        let held = ledger.count(&Selector::Holding { order_item_id: items[j].id, now });
        let quantity = items[j].quantity;
        if quantity < 0 || quantity as u64 != held as u64 {
            assert(count(ledger@, Selector::Holding { order_item_id: items@[j as int].id, now })
                != items@[j as int].quantity);
            return false;
        }
        j += 1;
    }
    true
}

/// What is held and not run out before a sale is purchased, for the same
/// item and in the buyer's wallet, after it.
pub proof fn lemma_sold_are_purchased(
    s: Seq<TicketInstance>,
    ids: Seq<u128>,
    wallet_id: u128,
    order_item_id: u128,
    now: i64,
    n: int,
)
    requires
        ids.contains(order_item_id),
        0 <= n <= s.len(),
    ensures
        count_before(
            purchased(s, ids, wallet_id),
            Selector::PurchasedFor { order_item_id, wallet_id },
            n,
        ) >= count_before(s, Selector::Holding { order_item_id, now }, n),
    decreases n,
{
    if n > 0 {
        lemma_sold_are_purchased(s, ids, wallet_id, order_item_id, now, n - 1);
    }
}

} // verus!
