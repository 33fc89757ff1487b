//! What holds of the inventory ledger over any run of requests: the number
//! of units of a ticket type never changes, and no more units are handed out
//! than are there.

use crate::errors::BusinessError;
use crate::inventory::{
    after, available, changed, count, count_before, lemma_count_bounds, lemma_rewrite_nothing, refusal,
    rewritten, selects, Change, LedgerOp, Selector, TicketInstance, TicketInstanceStatus,
};
use vstd::prelude::*;

verus! {

/// The ledger content after the requests `ops`, taken one after another.
pub open spec fn after_all(s: Seq<TicketInstance>, ops: Seq<LedgerOp>) -> Seq<TicketInstance>
    decreases ops.len(),
{
    if ops.len() == 0 {
        s
    } else {
        after(after_all(s, ops.drop_last()), ops.last())
    }
}

/// The instances of a ticket type that are for sale or sold: available,
/// reserved or purchased.
pub open spec fn in_circulation(s: Seq<TicketInstance>, ticket_type_id: u128) -> nat {
    count(s, Selector::OfType { ticket_type_id, status: TicketInstanceStatus::Available }) + count(
        s,
        Selector::OfType { ticket_type_id, status: TicketInstanceStatus::Reserved },
    ) + count(s, Selector::OfType { ticket_type_id, status: TicketInstanceStatus::Purchased })
}

/// Whether `r` holds the same units as `s`, each at its place: same ids and
/// ticket types, and redeemed in the one exactly where redeemed in the other.
pub open spec fn same_units(s: Seq<TicketInstance>, r: Seq<TicketInstance>) -> bool {
    &&& r.len() == s.len()
    &&& forall|i: int|
        0 <= i < s.len() ==> (#[trigger] r[i]).id == s[i].id && r[i].ticket_type_id
            == s[i].ticket_type_id && (r[i].status == TicketInstanceStatus::Redeemed
            <==> s[i].status == TicketInstanceStatus::Redeemed)
}

/// The four statuses part the units of a ticket type.
pub proof fn lemma_statuses_part(s: Seq<TicketInstance>, ticket_type_id: u128, n: int)
    ensures
        count_before(s, Selector::OfType { ticket_type_id, status: TicketInstanceStatus::Available }, n)
            + count_before(
            s,
            Selector::OfType { ticket_type_id, status: TicketInstanceStatus::Reserved },
            n,
        ) + count_before(
            s,
            Selector::OfType { ticket_type_id, status: TicketInstanceStatus::Purchased },
            n,
        ) + count_before(
            s,
            Selector::OfType { ticket_type_id, status: TicketInstanceStatus::Redeemed },
            n,
        ) == count_before(s, Selector::Minted { ticket_type_id }, n),
    decreases n,
{
    if n > 0 {
        lemma_statuses_part(s, ticket_type_id, n - 1);
    }
}

/// Ledgers with the same units count the same units of a type, minted and
/// redeemed, and so the same number in circulation.
pub proof fn lemma_same_units_counts(
    s: Seq<TicketInstance>,
    r: Seq<TicketInstance>,
    ticket_type_id: u128,
    n: int,
)
    requires
        same_units(s, r),
        0 <= n <= s.len(),
    ensures
        count_before(r, Selector::Minted { ticket_type_id }, n) == count_before(
            s,
            Selector::Minted { ticket_type_id },
            n,
        ),
        count_before(r, Selector::OfType { ticket_type_id, status: TicketInstanceStatus::Redeemed }, n)
            == count_before(
            s,
            Selector::OfType { ticket_type_id, status: TicketInstanceStatus::Redeemed },
            n,
        ),
    decreases n,
{
    if n > 0 {
        lemma_same_units_counts(s, r, ticket_type_id, n - 1);
        assert(r[n - 1].id == s[n - 1].id);
    }
}

/// A request leaves every unit in place, with its id and ticket type, and
/// neither redeems a unit nor brings a redeemed one back.
pub proof fn lemma_request_keeps_units(s: Seq<TicketInstance>, op: LedgerOp)
    ensures
        same_units(s, after(s, op)),
{
    let r = after(s, op);
    assert forall|i: int| 0 <= i < s.len() implies (#[trigger] r[i]).id == s[i].id
        && r[i].ticket_type_id == s[i].ticket_type_id && (r[i].status
        == TicketInstanceStatus::Redeemed <==> s[i].status == TicketInstanceStatus::Redeemed) by {}
}

/// Conservation. Over any run of requests to reserve, release, commit,
/// sweep and cancel, granted or refused, the units of a ticket type stay as
/// many as were minted, and the available, reserved and purchased ones among
/// them stay as many in sum: that sum is the number minted less the number
/// redeemed, so where none is redeemed it is the number minted.
pub proof fn law_conservation(s: Seq<TicketInstance>, ops: Seq<LedgerOp>, ticket_type_id: u128)
    ensures
        same_units(s, after_all(s, ops)),
        count(after_all(s, ops), Selector::Minted { ticket_type_id }) == count(
            s,
            Selector::Minted { ticket_type_id },
        ),
        in_circulation(after_all(s, ops), ticket_type_id) == in_circulation(s, ticket_type_id),
        in_circulation(s, ticket_type_id) == count(s, Selector::Minted { ticket_type_id }) - count(
            s,
            Selector::OfType { ticket_type_id, status: TicketInstanceStatus::Redeemed },
        ),
    decreases ops.len(),
{
    let r = after_all(s, ops);
    if ops.len() > 0 {
        let q = after_all(s, ops.drop_last());
        law_conservation(s, ops.drop_last(), ticket_type_id);
        lemma_request_keeps_units(q, ops.last());
        assert(same_units(s, r)) by {
            assert forall|i: int| 0 <= i < s.len() implies (#[trigger] r[i]).id == s[i].id
                && r[i].ticket_type_id == s[i].ticket_type_id && (r[i].status
                == TicketInstanceStatus::Redeemed <==> s[i].status
                == TicketInstanceStatus::Redeemed) by {
                assert(q[i].id == s[i].id);
            }
        }
    }
    lemma_same_units_counts(s, r, ticket_type_id, s.len() as int);
    lemma_statuses_part(s, ticket_type_id, s.len() as int);
    lemma_statuses_part(r, ticket_type_id, r.len() as int);
}

/// After a rewrite whose change takes an instance out of the selector's
/// reach, the selector matches as many fewer as the rewrite has changed.
pub proof fn lemma_count_consumed(s: Seq<TicketInstance>, sel: Selector, limit: int, ch: Change, n: int)
    requires
        0 <= n <= s.len(),
        0 <= limit,
        forall|t: TicketInstance| selects(sel, t) ==> !selects(sel, #[trigger] changed(t, ch)),
    ensures
        count_before(rewritten(s, sel, limit, ch), sel, n) == if count_before(s, sel, n) <= limit {
            0
        } else {
            count_before(s, sel, n) - limit
        },
    decreases n,
{
    if n > 0 {
        lemma_count_consumed(s, sel, limit, ch, n - 1);
        let t = s[n - 1];
        assert(selects(sel, t) ==> !selects(sel, changed(t, ch)));
    }
}

/// Whether the request is a reservation out of this stock: of this ticket
/// type, with this hold or with none.
pub open spec fn draws_on(op: LedgerOp, ticket_type_id: u128, allotment_id: Option<u128>) -> bool {
    op matches LedgerOp::Reserve { ticket_type_id: t, allotment_id: h, .. } && t == ticket_type_id && h
        == allotment_id
}

/// The units that a run of requests hands out of one stock: the quantities
/// of the reservations out of it that were granted.
pub open spec fn granted(
    s: Seq<TicketInstance>,
    ops: Seq<LedgerOp>,
    ticket_type_id: u128,
    allotment_id: Option<u128>,
) -> int
    decreases ops.len(),
{
    if ops.len() == 0 {
        0
    } else {
        granted(s, ops.drop_last(), ticket_type_id, allotment_id) + if draws_on(
            ops.last(),
            ticket_type_id,
            allotment_id,
        ) && ops.last()->Reserve_quantity > 0 && refusal(after_all(s, ops.drop_last()), ops.last())
            is None {
            ops.last()->Reserve_quantity as int
        } else {
            0
        }
    }
}

/// Whether every request of `ops` is a reservation.
pub open spec fn all_reservations(ops: Seq<LedgerOp>) -> bool {
    forall|k: int| 0 <= k < ops.len() ==> #[trigger] ops[k] is Reserve
}

/// A reservation leaves every other stock as it was, and takes from its own
/// what it was granted.
pub proof fn lemma_reserve_takes(
    s: Seq<TicketInstance>,
    op: LedgerOp,
    ticket_type_id: u128,
    allotment_id: Option<u128>,
)
    requires
        op is Reserve,
    ensures
        count(after(s, op), available(ticket_type_id, allotment_id)) == count(
            s,
            available(ticket_type_id, allotment_id),
        ) - (if draws_on(op, ticket_type_id, allotment_id) && op->Reserve_quantity > 0 && refusal(s, op)
            is None {
            op->Reserve_quantity as int
        } else {
            0
        }),
{
    let own = available(op->Reserve_ticket_type_id, op->Reserve_allotment_id);
    let quantity = op->Reserve_quantity;
    let ch = Change::Hold { order_item_id: op->Reserve_order_item_id, until: op->Reserve_until };
    if refusal(s, op) is None {
        if quantity <= 0 {
            lemma_rewrite_nothing(s, own, quantity as int, ch, 0);
        } else if draws_on(op, ticket_type_id, allotment_id) {
            lemma_count_consumed(s, own, quantity as int, ch, s.len() as int);
        } else {
            lemma_count_unaffected(
                s,
                own,
                quantity as int,
                ch,
                available(ticket_type_id, allotment_id),
                s.len() as int,
            );
        }
    }
}

/// A rewrite leaves the count of another selector as it was, if its change
/// moves no instance into or out of that selector's reach.
pub proof fn lemma_count_unaffected(
    s: Seq<TicketInstance>,
    sel: Selector,
    limit: int,
    ch: Change,
    other: Selector,
    n: int,
)
    requires
        0 <= n <= s.len(),
        forall|t: TicketInstance|
            selects(sel, t) ==> selects(other, #[trigger] changed(t, ch)) == selects(other, t),
    ensures
        count_before(rewritten(s, sel, limit, ch), other, n) == count_before(s, other, n),
    decreases n,
{
    if n > 0 {
        lemma_count_unaffected(s, sel, limit, ch, other, n - 1);
        let t = s[n - 1];
        assert(selects(sel, t) ==> selects(other, changed(t, ch)) == selects(other, t));
    }
}

/// No oversell. The ledger is changed through exclusive access only, so
/// reservations that are made at the same time meet it one after another, in
/// some order. Let any run of reservations do so, in whatever order. Each is
/// granted exactly when its
/// quantity is still on offer at its turn, and refused with
/// `InsufficientInventory` otherwise; what is left on offer of a stock is
/// what was there less what was granted out of it; and what was granted out
/// of it in sum never exceeds what was there.
pub proof fn law_no_oversell(
    s: Seq<TicketInstance>,
    ops: Seq<LedgerOp>,
    ticket_type_id: u128,
    allotment_id: Option<u128>,
)
    requires
        all_reservations(ops),
    ensures
        count(after_all(s, ops), available(ticket_type_id, allotment_id)) == count(
            s,
            available(ticket_type_id, allotment_id),
        ) - granted(s, ops, ticket_type_id, allotment_id),
        0 <= granted(s, ops, ticket_type_id, allotment_id) <= count(
            s,
            available(ticket_type_id, allotment_id),
        ),
        forall|k: int|
            0 <= k < ops.len() ==> (#[trigger] refusal(after_all(s, ops.take(k)), ops[k]) == if (
            ops[k]->Reserve_quantity) > count(
                after_all(s, ops.take(k)),
                available(ops[k]->Reserve_ticket_type_id, ops[k]->Reserve_allotment_id),
            ) {
                Some(BusinessError::InsufficientInventory)
            } else {
                None
            }),
    decreases ops.len(),
{
    if ops.len() > 0 {
        let head = ops.drop_last();
        assert(all_reservations(head)) by {
            assert forall|k: int| 0 <= k < head.len() implies #[trigger] head[k] is Reserve by {
                assert(ops[k] is Reserve);
            }
        }
        law_no_oversell(s, head, ticket_type_id, allotment_id);
        assert(ops.last() == ops[ops.len() - 1]);
        lemma_reserve_takes(after_all(s, head), ops.last(), ticket_type_id, allotment_id);
    }
    assert forall|k: int| 0 <= k < ops.len() implies (#[trigger] refusal(
        after_all(s, ops.take(k)),
        ops[k],
    ) == if (ops[k]->Reserve_quantity) > count(
        after_all(s, ops.take(k)),
        available(ops[k]->Reserve_ticket_type_id, ops[k]->Reserve_allotment_id),
    ) {
        Some(BusinessError::InsufficientInventory)
    } else {
        None
    }) by {
        assert(ops[k] is Reserve);
    }
}

/// Never more reserved than exist. Over any run of requests, the reserved
/// units of a ticket type are at most the units that were minted of it.
pub proof fn law_reserved_within_minted(
    s: Seq<TicketInstance>,
    ops: Seq<LedgerOp>,
    ticket_type_id: u128,
)
    ensures
        count(
            after_all(s, ops),
            Selector::OfType { ticket_type_id, status: TicketInstanceStatus::Reserved },
        ) <= count(s, Selector::Minted { ticket_type_id }),
{
    law_conservation(s, ops, ticket_type_id);
    let r = after_all(s, ops);
    lemma_statuses_part(r, ticket_type_id, r.len() as int);
}

/// Release bound. A request to release more than is reserved for an item
/// is refused with `ReleaseExceedsReserved`, and what is reserved stays
/// reserved: the ledger is as it was.
pub proof fn law_release_bound(s: Seq<TicketInstance>, order_item_id: u128, quantity: i64)
    requires
        quantity > count(s, Selector::ReservedFor { order_item_id }),
    ensures
        refusal(s, LedgerOp::Release { order_item_id, quantity }) == Some(
            BusinessError::ReleaseExceedsReserved,
        ),
        after(s, LedgerOp::Release { order_item_id, quantity }) == s,
{
}

/// Committing a purchase twice is committing it once.
pub proof fn law_commit_idempotent(s: Seq<TicketInstance>, order_item_id: u128)
    ensures
        after(after(s, LedgerOp::Commit { order_item_id }), LedgerOp::Commit { order_item_id })
            == after(s, LedgerOp::Commit { order_item_id }),
{
    let sel = Selector::ReservedFor { order_item_id };
    let r = after(s, LedgerOp::Commit { order_item_id });
    assert forall|i: int| 0 <= i < s.len() implies !selects(sel, #[trigger] r[i]) by {
        lemma_count_bounds(s, sel, 0, i);
    }
    assert(after(r, LedgerOp::Commit { order_item_id }) =~= r);
}

} // verus!
