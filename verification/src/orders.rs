//! Orders: a cart on its way to a purchase, its line items, and what it
//! costs.

use crate::errors::BusinessError;
use crate::records::{Lookup, Record};
use vstd::prelude::*;

verus! {

/// What an order is for.
#[derive(Clone, Copy, Debug, PartialEq, Eq, Structural)]
pub enum OrderTypes {
    Cart,
    Purchase,
}

/// How far an order has come. An order starts as a draft and is paid at
/// most once.
#[derive(Clone, Copy, Debug, PartialEq, Eq, Structural)]
pub enum OrderStatus {
    Draft,
    Paid,
    Cancelled,
    Refunded,
}

/// One line of an order: a number of tickets of one type, asked for under
/// one redemption code or under none.
#[derive(Clone, Debug, PartialEq, Eq)]
pub struct OrderItem {
    pub id: u128,
    pub ticket_type_id: u128,
    pub quantity: i64,
    pub redemption_code: Option<String>,
    pub unit_price_in_cents: i64,
}

/// An order.
#[derive(Clone, Debug, PartialEq, Eq)]
pub struct Order {
    pub id: u128,
    /// The account that owns the order.
    pub user_id: u128,
    /// The account that the order is made for, where that is another than
    /// its owner.
    pub on_behalf_of_user_id: Option<u128>,
    pub order_type: OrderTypes,
    pub status: OrderStatus,
    pub items: Vec<OrderItem>,
}

/// An order as contracts speak of it: its items as a sequence.
pub struct OrderView {
    pub id: u128,
    pub user_id: u128,
    pub on_behalf_of_user_id: Option<u128>,
    pub order_type: OrderTypes,
    pub status: OrderStatus,
    pub items: Seq<OrderItem>,
}

impl View for Order {
    type V = OrderView;

    open spec fn view(&self) -> OrderView {
        OrderView {
            id: self.id,
            user_id: self.user_id,
            on_behalf_of_user_id: self.on_behalf_of_user_id,
            order_type: self.order_type,
            status: self.status,
            items: self.items@,
        }
    }
}

/// The orders of a table as contracts speak of them.
pub open spec fn views(orders: Seq<Order>) -> Seq<OrderView> {
    Seq::new(orders.len(), |i: int| orders[i]@)
}

/// A ticket type with its price.
#[derive(Clone, Copy, Debug, PartialEq, Eq)]
pub struct TicketType {
    pub id: u128,
    pub price_in_cents: i64,
    /// The instant from which the keys that redeem tickets of this type are
    /// shown to their holders; until one is set they are not shown.
    pub redeem_date: Option<i64>,
}

/// Tickets of one type that are set aside for the buyers who come with a
/// redemption code.
#[derive(Clone, Debug, PartialEq, Eq)]
pub struct Allotment {
    pub id: u128,
    pub ticket_type_id: u128,
    pub redemption_code: String,
}

/// One tier of a fee schedule: the fee on a ticket whose price is at least
/// `min_price`.
#[derive(Clone, Copy, Debug, PartialEq, Eq)]
pub struct FeeScheduleRange {
    pub min_price: i64,
    pub fee_in_cents: i64,
}

/// A fee schedule: its tiers, in the order in which they apply.
#[derive(Clone, Debug, PartialEq, Eq)]
pub struct FeeSchedule {
    pub ranges: Vec<FeeScheduleRange>,
}

/// What is written in a redemption code, if there is one.
pub open spec fn code_view(code: Option<String>) -> Option<Seq<char>> {
    match code {
        Some(c) => Some(c@),
        None => None,
    }
}

/// Whether two redemption codes read the same.
pub fn same_code(a: &Option<String>, b: &Option<String>) -> (r: bool)
    ensures
        r == (code_view(*a) == code_view(*b)),
{
    match a {
        Some(x) => match b {
            Some(y) => *x == *y,
            None => false,
        },
        None => match b {
            Some(_) => false,
            None => true,
        },
    }
}

/// A copy of a redemption code.
pub fn copy_code(code: &Option<String>) -> (r: Option<String>)
    ensures
        r == *code,
{
    match code {
        Some(c) => Some(c.clone()),
        None => None,
    }
}

impl Record for TicketType {
    open spec fn answers(&self, q: Lookup) -> bool {
        match q {
            Lookup::Id(id) => self.id == id,
            Lookup::DefaultOf(_) => false,
        }
    }

    fn is_answer(&self, q: &Lookup) -> (b: bool) {
        match *q {
            Lookup::Id(id) => self.id == id,
            Lookup::DefaultOf(_) => false,
        }
    }
}

impl Record for OrderItem {
    open spec fn answers(&self, q: Lookup) -> bool {
        match q {
            Lookup::Id(id) => self.id == id,
            Lookup::DefaultOf(_) => false,
        }
    }

    fn is_answer(&self, q: &Lookup) -> (b: bool) {
        match *q {
            Lookup::Id(id) => self.id == id,
            Lookup::DefaultOf(_) => false,
        }
    }
}

impl Record for Order {
    /// An account's order by default is its cart: a draft of type `Cart`.
    open spec fn answers(&self, q: Lookup) -> bool {
        match q {
            Lookup::Id(id) => self.id == id,
            Lookup::DefaultOf(user) => self.user_id == user && self.order_type == OrderTypes::Cart
                && self.status == OrderStatus::Draft,
        }
    }

    fn is_answer(&self, q: &Lookup) -> (b: bool) {
        match *q {
            Lookup::Id(id) => self.id == id,
            Lookup::DefaultOf(user) => self.user_id == user && self.order_type == OrderTypes::Cart
                && self.status == OrderStatus::Draft,
        }
    }
}

/// Whether the allotment is the one that this code redeems for this ticket
/// type.
pub open spec fn redeems(a: Allotment, ticket_type_id: u128, code: Seq<char>) -> bool {
    a.ticket_type_id == ticket_type_id && a.redemption_code@ == code
}

/// The place of the first allotment among the first `n` that the code redeems
/// for the ticket type.
pub open spec fn allotment_before(allotments: Seq<Allotment>, ticket_type_id: u128, code: Seq<char>, n: int) -> Option<
    int,
>
    decreases n,
{
    if n <= 0 {
        None
    } else {
        match allotment_before(allotments, ticket_type_id, code, n - 1) {
            Some(i) => Some(i),
            None => if redeems(allotments[n - 1], ticket_type_id, code) {
                Some(n - 1)
            } else {
                None
            },
        }
    }
}

/// The place of the first allotment that the code redeems for the ticket
/// type.
pub open spec fn allotment_of(allotments: Seq<Allotment>, ticket_type_id: u128, code: Seq<char>) -> Option<int> {
    allotment_before(allotments, ticket_type_id, code, allotments.len() as int)
}

/// An allotment found among the first is the one found among all, and what is
/// found is in range.
pub proof fn lemma_allotment_stays(allotments: Seq<Allotment>, ticket_type_id: u128, code: Seq<char>, m: int, n: int)
    requires
        0 <= m <= n,
    ensures
        allotment_before(allotments, ticket_type_id, code, m) is Some ==> allotment_before(
            allotments,
            ticket_type_id,
            code,
            n,
        ) == allotment_before(allotments, ticket_type_id, code, m),
        allotment_before(allotments, ticket_type_id, code, n) matches Some(i) ==> 0 <= i < n,
    decreases n,
{
    if n > m {
        lemma_allotment_stays(allotments, ticket_type_id, code, m, n - 1);
    } else if n > 0 {
        lemma_allotment_stays(allotments, ticket_type_id, code, n - 1, n - 1);
    }
}

/// The place of the first allotment that the code redeems for the ticket
/// type.
pub fn find_allotment(allotments: &Vec<Allotment>, ticket_type_id: u128, code: &String) -> (r: Option<usize>)
    ensures
        match r {
            Some(i) => allotment_of(allotments@, ticket_type_id, code@) == Some(i as int) && i < allotments.len(),
            None => allotment_of(allotments@, ticket_type_id, code@) is None,
        },
{
    let mut i: usize = 0;
    while i < allotments.len()
        invariant
            i <= allotments.len(),
            allotment_before(allotments@, ticket_type_id, code@, i as int) is None,
        decreases allotments.len() - i,
    {
        if allotments[i].ticket_type_id == ticket_type_id && allotments[i].redemption_code == *code {
            proof {
                lemma_allotment_stays(allotments@, ticket_type_id, code@, i + 1, allotments.len() as int);
            }
            return Some(i);
        }
        i += 1;
    }
    None
}

impl OrderItem {
    /// A copy of the item.
    pub fn duplicate(&self) -> (r: OrderItem)
        ensures
            r == *self,
    {
        OrderItem {
            id: self.id,
            ticket_type_id: self.ticket_type_id,
            quantity: self.quantity,
            redemption_code: copy_code(&self.redemption_code),
            unit_price_in_cents: self.unit_price_in_cents,
        }
    }

    /// Whether the item is the line for this ticket type and this code.
    pub open spec fn is_line(self, ticket_type_id: u128, code: Option<Seq<char>>) -> bool {
        self.ticket_type_id == ticket_type_id && code_view(self.redemption_code) == code
    }
}

/// The place of the first item among the first `n` of `items` that is the
/// line for this ticket type and code.
pub open spec fn line_before(
    items: Seq<OrderItem>,
    ticket_type_id: u128,
    code: Option<Seq<char>>,
    n: int,
) -> Option<int>
    decreases n,
{
    if n <= 0 {
        None
    } else {
        match line_before(items, ticket_type_id, code, n - 1) {
            Some(i) => Some(i),
            None => if items[n - 1].is_line(ticket_type_id, code) {
                Some(n - 1)
            } else {
                None
            },
        }
    }
}

/// The place of the first item that is the line for this ticket type and
/// code.
pub open spec fn line_of(items: Seq<OrderItem>, ticket_type_id: u128, code: Option<Seq<char>>) -> Option<
    int,
> {
    line_before(items, ticket_type_id, code, items.len() as int)
}

/// A line found in a prefix is the line found in the whole, and what is
/// found is in range.
pub proof fn lemma_line_stays(
    items: Seq<OrderItem>,
    ticket_type_id: u128,
    code: Option<Seq<char>>,
    m: int,
    n: int,
)
    requires
        0 <= m <= n,
    ensures
        line_before(items, ticket_type_id, code, m) is Some ==> line_before(
            items,
            ticket_type_id,
            code,
            n,
        ) == line_before(items, ticket_type_id, code, m),
        line_before(items, ticket_type_id, code, n) matches Some(i) ==> 0 <= i < n,
    decreases n,
{
    if n > m {
        lemma_line_stays(items, ticket_type_id, code, m, n - 1);
    } else if n > 0 {
        lemma_line_stays(items, ticket_type_id, code, n - 1, n - 1);
    }
}

/// The place of the first item that is the line for this ticket type and
/// code.
pub fn find_line(items: &Vec<OrderItem>, ticket_type_id: u128, code: &Option<String>) -> (r: Option<
    usize,
>)
    ensures
        match r {
            Some(i) => line_of(items@, ticket_type_id, code_view(*code)) == Some(i as int) && i
                < items.len(),
            None => line_of(items@, ticket_type_id, code_view(*code)) is None,
        },
{
    let mut i: usize = 0;
    while i < items.len()
        invariant
            i <= items.len(),
            line_before(items@, ticket_type_id, code_view(*code), i as int) is None,
        decreases items.len() - i,
    {
        if items[i].ticket_type_id == ticket_type_id && same_code(&items[i].redemption_code, code) {
            proof {
                lemma_line_stays(
                    items@,
                    ticket_type_id,
                    code_view(*code),
                    i + 1,
                    items.len() as int,
                );
            }
            return Some(i);
        }
        i += 1;
    }
    None
}

/// A copy of the items.
pub fn copy_items(items: &Vec<OrderItem>) -> (r: Vec<OrderItem>)
    ensures
        r@ == items@,
{
    let mut r: Vec<OrderItem> = Vec::new();
    let mut i: usize = 0;
    while i < items.len()
        invariant
            i <= items.len(),
            r@ == items@.take(i as int),
        decreases items.len() - i,
    {
        r.push(items[i].duplicate());
        assert(items@.take(i + 1) == items@.take(i as int).push(items@[i as int]));
        i += 1;
    }
    assert(items@.take(items@.len() as int) == items@);
    r
}

/// The fee on a price by the first `n` tiers: that of the last tier among
/// them whose minimum price is not above the price, and nothing where there
/// is no such tier.
pub open spec fn fee_before(ranges: Seq<FeeScheduleRange>, price: i64, n: int) -> i64
    decreases n,
{
    if n <= 0 {
        0
    } else if ranges[n - 1].min_price <= price {
        ranges[n - 1].fee_in_cents
    } else {
        fee_before(ranges, price, n - 1)
    }
}

impl FeeSchedule {
    /// The fee on a ticket of this price: that of the last tier whose
    /// minimum price is not above it. A function of the price alone.
    pub open spec fn fee(&self, price: i64) -> i64 {
        fee_before(self.ranges@, price, self.ranges@.len() as int)
    }

    /// The fee on a ticket of this price.
    pub fn lookup(&self, price: i64) -> (fee: i64)
        ensures
            fee == self.fee(price),
    {
        let mut fee: i64 = 0;
        let mut i: usize = 0;
        while i < self.ranges.len()
            invariant
                i <= self.ranges.len(),
                fee == fee_before(self.ranges@, price, i as int),
            decreases self.ranges.len() - i,
        {
            if self.ranges[i].min_price <= price {
                fee = self.ranges[i].fee_in_cents;
            }
            i += 1;
        }
        fee
    }
}

/// What one line costs: for each of its tickets the unit price and the fee
/// on that price.
pub open spec fn line_total(item: OrderItem, schedule: FeeSchedule) -> int {
    item.quantity * (item.unit_price_in_cents + schedule.fee(item.unit_price_in_cents))
}

/// What the first `n` lines cost together.
pub open spec fn total_before(items: Seq<OrderItem>, schedule: FeeSchedule, n: int) -> int
    decreases n,
{
    if n <= 0 {
        0
    } else {
        total_before(items, schedule, n - 1) + line_total(items[n - 1], schedule)
    }
}

/// Whether the running total stays within what an `i64` holds, line after
/// line.
pub open spec fn total_in_range(items: Seq<OrderItem>, schedule: FeeSchedule) -> bool {
    forall|k: int|
        0 <= k <= items.len() ==> i64::MIN <= #[trigger] total_before(items, schedule, k)
            <= i64::MAX
}

impl Order {
    /// A new draft without items.
    pub fn create(id: u128, user_id: u128, order_type: OrderTypes) -> (o: Order)
        ensures
            o.id == id,
            o.user_id == user_id,
            o.on_behalf_of_user_id is None,
            o.order_type == order_type,
            o.status == OrderStatus::Draft,
            o.items@ == Seq::<OrderItem>::empty(),
    {
        Order {
            id,
            user_id,
            on_behalf_of_user_id: None,
            order_type,
            status: OrderStatus::Draft,
            items: Vec::new(),
        }
    }

    /// The order's status.
    pub fn status(&self) -> (s: OrderStatus)
        ensures
            s == self.status,
    {
        self.status
    }

    /// Whether the order has any item.
    pub fn has_items(&self) -> (b: bool)
        ensures
            b == (self.items@.len() > 0),
    {
        self.items.len() > 0
    }

    /// What the order costs: the sum over its lines of quantity times unit
    /// price plus fee.
    pub open spec fn total(&self, schedule: FeeSchedule) -> int {
        total_before(self.items@, schedule, self.items@.len() as int)
    }

    /// What the order costs. `PersistenceError` exactly when the running
    /// total leaves the range of an `i64` at some line.
    pub fn calculate_total(&self, schedule: &FeeSchedule) -> (r: Result<i64, BusinessError>)
        ensures
            match r {
                Ok(t) => total_in_range(self.items@, *schedule) && t == self.total(*schedule),
                Err(e) => !total_in_range(self.items@, *schedule) && e
                    == BusinessError::PersistenceError,
            },
    {
        let mut total: i64 = 0;
        let mut i: usize = 0;
        while i < self.items.len()
            invariant
                i <= self.items.len(),
                total == total_before(self.items@, *schedule, i as int),
                forall|k: int|
                    0 <= k <= i ==> i64::MIN <= #[trigger] total_before(self.items@, *schedule, k)
                        <= i64::MAX,
            decreases self.items.len() - i,
        {
            let item = &self.items[i];
            let fee = schedule.lookup(item.unit_price_in_cents);
            let unit: i128 = item.unit_price_in_cents as i128 + fee as i128;
            let ghost line = line_total(self.items@[i as int], *schedule);
            let next = match (item.quantity as i128).checked_mul(unit) {
                Some(l) => (total as i128).checked_add(l),
                None => None,
            };
            proof {
                assert(total_before(self.items@, *schedule, i + 1) == total + line);
                assert(line == item.quantity * unit);
            }
            match next {
                Some(t) if i64::MIN as i128 <= t && t <= i64::MAX as i128 => {
                    total = t as i64;
                },
                _ => {
                    assert(!(i64::MIN <= total_before(self.items@, *schedule, i + 1) <= i64::MAX));
                    return Err(BusinessError::PersistenceError);
                },
            }
            i += 1;
        }
        Ok(total)
    }
}

} // verus!
