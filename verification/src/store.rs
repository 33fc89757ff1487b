//! The box office's state: the ledger and the tables around it.

use crate::assets::Asset;
use crate::ipns::DomainAction;
use crate::inventory::Ledger;
use crate::orders::{FeeSchedule, Allotment, Order, OrderStatus, OrderTypes, TicketType};
use crate::payments::{Payment, PaymentMethod};
use crate::records::{first, lemma_first, Lookup, Record};
use crate::wallets::Wallet;
use vstd::prelude::*;

verus! {

/// What is on sale and on what terms.
#[derive(Clone, Debug, PartialEq, Eq)]
pub struct Catalog {
    pub ticket_types: Vec<TicketType>,
    /// The allotments: which tickets are set aside for which redemption
    /// code.
    pub allotments: Vec<Allotment>,
    pub fee_schedule: FeeSchedule,
    /// For how many seconds a reservation holds its tickets.
    pub hold_window: u32,
}

/// Everything the box office knows.
#[derive(Clone, Debug, PartialEq, Eq)]
pub struct Store {
    pub ledger: Ledger,
    pub orders: Vec<Order>,
    pub wallets: Vec<Wallet>,
    pub assets: Vec<Asset>,
    pub payments: Vec<Payment>,
    pub payment_methods: Vec<PaymentMethod>,
    /// The work that waits to be done, oldest first.
    pub domain_actions: Vec<DomainAction>,
    pub catalog: Catalog,
    /// The identifier that the next new record gets.
    pub next_id: u128,
}

/// Whether the order is a cart: a draft of type `Cart`.
pub open spec fn is_cart(o: Order) -> bool {
    o.order_type == OrderTypes::Cart && o.status == OrderStatus::Draft
}

/// Whether no account has two carts.
pub open spec fn one_cart_each(orders: Seq<Order>) -> bool {
    forall|i: int, j: int|
        0 <= i < j < orders.len() && is_cart(#[trigger] orders[i]) && is_cart(#[trigger] orders[j])
            ==> orders[i].user_id != orders[j].user_id
}

/// Whether no order has two payments that still count: that are neither
/// refunded nor failed.
pub open spec fn one_active_payment_each(payments: Seq<Payment>) -> bool {
    forall|i: int, j: int|
        0 <= i < j < payments.len() && (#[trigger] payments[i]).is_active() && (
        #[trigger] payments[j]).is_active() ==> payments[i].order_id != payments[j].order_id
}

/// Whether the identifiers of all orders and of all their items are below
/// `bound`.
pub open spec fn order_ids_below(orders: Seq<Order>, bound: u128) -> bool {
    &&& forall|i: int| 0 <= i < orders.len() ==> (#[trigger] orders[i]).id < bound
    &&& forall|i: int, j: int|
        0 <= i < orders.len() && 0 <= j < orders[i].items@.len() ==> (
        #[trigger] orders[i].items@[j]).id < bound
}

/// Whether the identifiers of all payments are below `bound`.
pub open spec fn payment_ids_below(payments: Seq<Payment>, bound: u128) -> bool {
    forall|i: int| 0 <= i < payments.len() ==> (#[trigger] payments[i]).id < bound
}

/// Whether the identifiers of all payment methods are below `bound`.
pub open spec fn method_ids_below(methods: Seq<PaymentMethod>, bound: u128) -> bool {
    forall|i: int| 0 <= i < methods.len() ==> (#[trigger] methods[i]).id < bound
}

/// Whether the identifiers of all queued work are below `bound`.
pub open spec fn action_ids_below(actions: Seq<DomainAction>, bound: u128) -> bool {
    forall|i: int| 0 <= i < actions.len() ==> (#[trigger] actions[i]).id < bound
}

/// Whether no two orders share an identifier.
pub open spec fn distinct_orders(orders: Seq<Order>) -> bool {
    forall|i: int, j: int|
        0 <= i < j < orders.len() ==> (#[trigger] orders[i]).id != (#[trigger] orders[j]).id
}

/// Whether no two payments share an identifier.
pub open spec fn distinct_payments(payments: Seq<Payment>) -> bool {
    forall|i: int, j: int|
        0 <= i < j < payments.len() ==> (#[trigger] payments[i]).id != (#[trigger] payments[j]).id
}

/// Whether every cart holds at least one item.
pub open spec fn no_empty_cart(orders: Seq<Order>) -> bool {
    forall|i: int|
        0 <= i < orders.len() && is_cart(#[trigger] orders[i]) ==> orders[i].items@.len() > 0
}

impl Store {
    /// Whether the identifiers in the store are in order: every identifier
    /// that the store has given out, to an order, an order item, a payment,
    /// a payment method or a piece of queued work, is below the one that it
    /// gives out next, and no two orders and no two payments share one.
    pub open spec fn ids_in_order(&self) -> bool {
        &&& order_ids_below(self.orders@, self.next_id)
        &&& payment_ids_below(self.payments@, self.next_id)
        &&& method_ids_below(self.payment_methods@, self.next_id)
        &&& action_ids_below(self.domain_actions@, self.next_id)
        &&& distinct_orders(self.orders@)
        &&& distinct_payments(self.payments@)
    }

    /// Whether the store is valid: the ledger is, no account has two carts,
    /// no cart is empty, no order has two payments that still count, and the
    /// identifiers are in order.
    pub open spec fn wf(&self) -> bool {
        &&& self.ledger.wf()
        &&& one_cart_each(self.orders@)
        &&& no_empty_cart(self.orders@)
        &&& one_active_payment_each(self.payments@)
        &&& self.ids_in_order()
    }

    /// An empty store with this catalog.
    pub fn new(catalog: Catalog) -> (s: Store)
        ensures
            s.wf(),
            s.ledger@.len() == 0,
            s.orders@.len() == 0,
            s.wallets@.len() == 0,
            s.assets@.len() == 0,
            s.payments@.len() == 0,
            s.payment_methods@.len() == 0,
            s.domain_actions@.len() == 0,
            s.catalog == catalog,
            s.next_id == 1,
    {
        Store {
            ledger: Ledger::new(),
            orders: Vec::new(),
            wallets: Vec::new(),
            assets: Vec::new(),
            payments: Vec::new(),
            payment_methods: Vec::new(),
            domain_actions: Vec::new(),
            catalog,
            next_id: 1,
        }
    }
}

/// What is valid of the orders stays valid when one of them is taken out:
/// at most one cart each, no empty cart, identifiers below a bound and apart
/// from each other. Where the one taken out was an account's cart and no
/// account had two, the account has no cart left.
pub proof fn lemma_order_removed(before: Seq<Order>, c: int, bound: u128)
    requires
        0 <= c < before.len(),
    ensures
        ({
            let after = before.remove(c);
            &&& one_cart_each(before) ==> one_cart_each(after)
            &&& no_empty_cart(before) ==> no_empty_cart(after)
            &&& order_ids_below(before, bound) ==> order_ids_below(after, bound)
            &&& distinct_orders(before) ==> distinct_orders(after)
            &&& one_cart_each(before) && is_cart(before[c]) ==> forall|x: int|
                0 <= x < after.len() ==> !(is_cart(#[trigger] after[x]) && after[x].user_id
                    == before[c].user_id)
        }),
{
    let after = before.remove(c);
    assert forall|x: int| 0 <= x < after.len() implies #[trigger] after[x] == before[if x < c {
        x
    } else {
        x + 1
    }] by {}
    if one_cart_each(before) {
        assert forall|x: int, y: int|
            0 <= x < y < after.len() && is_cart(#[trigger] after[x]) && is_cart(
                #[trigger] after[y],
            ) implies after[x].user_id != after[y].user_id by {
            let bx = if x < c { x } else { x + 1 };
            let by_ = if y < c { y } else { y + 1 };
            assert(is_cart(before[bx]) && is_cart(before[by_]));
        }
        if is_cart(before[c]) {
            assert forall|x: int| 0 <= x < after.len() implies !(is_cart(#[trigger] after[x])
                && after[x].user_id == before[c].user_id) by {
                let bx = if x < c { x } else { x + 1 };
                if is_cart(before[bx]) {
                    if bx < c {
                        assert(before[bx].user_id != before[c].user_id);
                    } else {
                        assert(before[c].user_id != before[bx].user_id);
                    }
                }
            }
        }
    }
    if no_empty_cart(before) {
        assert forall|x: int| 0 <= x < after.len() && is_cart(#[trigger] after[x]) implies after[x].items@.len()
            > 0 by {
            let bx = if x < c { x } else { x + 1 };
            assert(is_cart(before[bx]));
        }
    }
    if order_ids_below(before, bound) {
        assert forall|x: int| 0 <= x < after.len() implies (#[trigger] after[x]).id < bound by {
            let bx = if x < c { x } else { x + 1 };
            assert(before[bx].id < bound);
        }
        assert forall|x: int, j: int|
            0 <= x < after.len() && 0 <= j < after[x].items@.len() implies (
        #[trigger] after[x].items@[j]).id < bound by {
            let bx = if x < c { x } else { x + 1 };
            assert(before[bx].items@[j].id < bound);
        }
    }
    if distinct_orders(before) {
        assert forall|x: int, y: int| 0 <= x < y < after.len() implies (#[trigger] after[x]).id != (
        #[trigger] after[y]).id by {
            let bx = if x < c { x } else { x + 1 };
            let by_ = if y < c { y } else { y + 1 };
            assert(before[bx].id != before[by_].id);
        }
    }
}

/// What is valid of the orders stays valid when one of them is replaced by
/// an order of the same id and owner that is a cart only if the other was,
/// and then not an empty one, and whose items have identifiers below the
/// bound where all had before.
pub proof fn lemma_order_replaced(before: Seq<Order>, after: Seq<Order>, c: int, bound: u128)
    requires
        0 <= c < before.len(),
        after.len() == before.len(),
        forall|i: int| 0 <= i < before.len() && i != c ==> #[trigger] after[i] == before[i],
        after[c].id == before[c].id,
        after[c].user_id == before[c].user_id,
        is_cart(after[c]) ==> is_cart(before[c]) && after[c].items@.len() > 0,
        order_ids_below(before, bound) ==> forall|j: int|
            0 <= j < after[c].items@.len() ==> (#[trigger] after[c].items@[j]).id < bound,
    ensures
        one_cart_each(before) ==> one_cart_each(after),
        no_empty_cart(before) ==> no_empty_cart(after),
        order_ids_below(before, bound) ==> order_ids_below(after, bound),
        distinct_orders(before) ==> distinct_orders(after),
{
    assert forall|i: int| 0 <= i < after.len() implies (#[trigger] after[i]).id == before[i].id
        && after[i].user_id == before[i].user_id && (is_cart(after[i]) ==> is_cart(before[i])) by {}
    if one_cart_each(before) {
        assert forall|x: int, y: int|
            0 <= x < y < after.len() && is_cart(#[trigger] after[x]) && is_cart(
                #[trigger] after[y],
            ) implies after[x].user_id != after[y].user_id by {
            assert(is_cart(before[x]) && is_cart(before[y]));
        }
    }
    if no_empty_cart(before) {
        assert forall|x: int| 0 <= x < after.len() && is_cart(#[trigger] after[x]) implies after[x].items@.len()
            > 0 by {
            assert(is_cart(before[x]));
        }
    }
    if order_ids_below(before, bound) {
        assert forall|x: int| 0 <= x < after.len() implies (#[trigger] after[x]).id < bound by {
            assert(before[x].id < bound);
        }
        assert forall|x: int, j: int|
            0 <= x < after.len() && 0 <= j < after[x].items@.len() implies (
        #[trigger] after[x].items@[j]).id < bound by {
            if x != c {
                assert(before[x].items@[j].id < bound);
            }
        }
    }
    if distinct_orders(before) {
        assert forall|x: int, y: int| 0 <= x < y < after.len() implies (#[trigger] after[x]).id != (
        #[trigger] after[y]).id by {
            assert(before[x].id != before[y].id);
        }
    }
}

/// What is valid of the orders stays valid when an order joins them whose
/// id is not below the old bound, whose own identifiers are below the new
/// one, and which is a cart only if it is not empty and its owner has none.
pub proof fn lemma_order_added(before: Seq<Order>, o: Order, old_bound: u128, bound: u128)
    requires
        old_bound <= o.id < bound,
        forall|j: int| 0 <= j < o.items@.len() ==> (#[trigger] o.items@[j]).id < bound,
        is_cart(o) ==> o.items@.len() > 0 && forall|i: int|
            0 <= i < before.len() ==> !(is_cart(#[trigger] before[i]) && before[i].user_id
                == o.user_id),
    ensures
        one_cart_each(before) ==> one_cart_each(before.push(o)),
        no_empty_cart(before) ==> no_empty_cart(before.push(o)),
        order_ids_below(before, old_bound) ==> order_ids_below(before.push(o), bound),
        order_ids_below(before, old_bound) && distinct_orders(before) ==> distinct_orders(
            before.push(o),
        ),
{
    let after = before.push(o);
    assert forall|i: int| 0 <= i < before.len() implies #[trigger] after[i] == before[i] by {}
    if one_cart_each(before) {
        assert forall|x: int, y: int|
            0 <= x < y < after.len() && is_cart(#[trigger] after[x]) && is_cart(
                #[trigger] after[y],
            ) implies after[x].user_id != after[y].user_id by {
            if y < before.len() {
                assert(is_cart(before[x]) && is_cart(before[y]));
            } else {
                assert(is_cart(before[x]));
            }
        }
    }
    if no_empty_cart(before) {
        assert forall|x: int| 0 <= x < after.len() && is_cart(#[trigger] after[x]) implies after[x].items@.len()
            > 0 by {
            if x < before.len() {
                assert(is_cart(before[x]));
            }
        }
    }
    if order_ids_below(before, old_bound) {
        assert forall|x: int| 0 <= x < after.len() implies (#[trigger] after[x]).id < bound by {
            if x < before.len() {
                assert(before[x].id < old_bound);
            }
        }
        assert forall|x: int, j: int|
            0 <= x < after.len() && 0 <= j < after[x].items@.len() implies (
        #[trigger] after[x].items@[j]).id < bound by {
            if x < before.len() {
                assert(before[x].items@[j].id < old_bound);
            }
        }
        if distinct_orders(before) {
            assert forall|x: int, y: int| 0 <= x < y < after.len() implies (#[trigger] after[x]).id
                != (#[trigger] after[y]).id by {
                if y < before.len() {
                    assert(before[x].id != before[y].id);
                } else {
                    assert(before[x].id < old_bound);
                }
            }
        }
    }
}

/// Identifiers that are below a bound are below every larger one.
pub proof fn lemma_order_ids_below_more(orders: Seq<Order>, a: u128, b: u128)
    requires
        a <= b,
        order_ids_below(orders, a),
    ensures
        order_ids_below(orders, b),
{
    assert forall|x: int| 0 <= x < orders.len() implies (#[trigger] orders[x]).id < b by {
        assert(orders[x].id < a);
    }
    assert forall|x: int, j: int|
        0 <= x < orders.len() && 0 <= j < orders[x].items@.len() implies (
    #[trigger] orders[x].items@[j]).id < b by {
        assert(orders[x].items@[j].id < a);
    }
}

/// In a store whose identifiers are in order, an identifier names one
/// record: the order at a place is the order that is found by its id, and the
/// payment at a place is the payment that is found by its id.
pub proof fn law_ids_name_one_record(store: Store, i: int)
    requires
        store.ids_in_order(),
    ensures
        0 <= i < store.orders@.len() ==> first(store.orders@, Lookup::Id(store.orders@[i].id))
            == Some(i),
        0 <= i < store.payments@.len() ==> first(store.payments@, Lookup::Id(store.payments@[i].id))
            == Some(i),
{
    if 0 <= i < store.orders@.len() {
        let q = Lookup::Id(store.orders@[i].id);
        lemma_first(store.orders@, q, store.orders@.len() as int);
        assert(store.orders@[i].answers(q));
        let f = first(store.orders@, q)->0;
        if f < i {
            assert(store.orders@[f].id != store.orders@[i].id);
        }
    }
    if 0 <= i < store.payments@.len() {
        let q = Lookup::Id(store.payments@[i].id);
        lemma_first(store.payments@, q, store.payments@.len() as int);
        assert(store.payments@[i].answers(q));
        let f = first(store.payments@, q)->0;
        if f < i {
            assert(store.payments@[f].id != store.payments@[i].id);
        }
    }
}

} // verus!
