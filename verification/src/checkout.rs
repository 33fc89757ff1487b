//! The checkout of one order, step by step.
//!
//! A checkout is a conversation with the payment provider and with the
//! external ledger. The box office never waits inside a step: each step
//! takes the store as it stands and the reply to the last action, changes
//! the store in one go, and names the next action. Whoever talks to the
//! provider performs the action and comes back with the reply. A checkout
//! that is interrupted between two steps leaves the store as the last step
//! made it.
//!
//! The course of a card payment: resolve the token to charge, authorize the
//! charge, record the payment as authorized, complete the charge, mark
//! payment and order as paid and hand the tickets to the buyer, then move
//! the tokens on the external ledger, asset by asset. A charge that is
//! authorized but cannot be recorded or completed is refunded, and the order
//! stays a draft. A settlement that fails is reported; the payment stands.

use crate::errors::BusinessError;
use crate::identifiers::{uuid_text, write_uuid};
use crate::orders::{views, OrderStatus, OrderView};
use crate::payment_processor::{
    ChargeAuthResult, ChargeResult, PaymentProcessorError, RepeatChargeToken,
};
use crate::payments::{Payment, PaymentMethod, PaymentStatus};
use crate::payment_processor::{PaymentProcessor, PaymentProcessorBehavior};
use crate::records::{first, lemma_first, position, Lookup, Record};
use crate::service_locator::Config;
use crate::inventory::{count, Selector};
use crate::settlement::{
    delivery_views, fully_reserved, holds_in_full, item_ids, lemma_sold_are_purchased, order_plan,
    plan_deliveries, purchase_items, purchased, Delivery, DeliveryView,
};
use crate::store::{
    distinct_orders, lemma_order_replaced, no_empty_cart, one_active_payment_each, one_cart_each,
    order_ids_below, Store,
};
use vstd::prelude::*;

verus! {

/// The account that asks for a checkout.
#[derive(Clone, Copy, Debug, PartialEq, Eq)]
pub struct User {
    pub id: u128,
    /// Whether the account may record payments that were made elsewhere.
    pub can_make_external_payments: bool,
}

/// What a checkout answers with when it has gone through.
#[derive(Clone, Copy, Debug, PartialEq, Eq)]
pub struct CheckoutResponse {
    pub payment_id: u128,
}

/// Why a checkout ended without success.
#[derive(Clone, Debug, PartialEq, Eq)]
pub enum CheckoutError {
    /// A rule of the box office was broken.
    Rule(BusinessError),
    /// The payment provider failed.
    Processor(PaymentProcessorError),
    /// The external ledger failed to move the tokens of a paid order.
    Settlement(String),
    /// A reply came that does not answer the action that was asked for.
    UnexpectedReply,
}

impl CheckoutError {
    /// How the failure is answered over HTTP: a broken rule as the rule says,
    /// a failure of the provider as something that was asked and cannot be
    /// done, and a failed settlement or a reply out of turn as a fault on the
    /// serving side.
    pub open spec fn spec_status_code(self) -> int {
        match self {
            CheckoutError::Rule(e) => e.spec_status_code(),
            CheckoutError::Processor(_) => 422,
            CheckoutError::Settlement(_) => 500,
            CheckoutError::UnexpectedReply => 500,
        }
    }

    /// How the failure is answered over HTTP.
    pub fn status_code(&self) -> (c: u16)
        ensures
            c == self.spec_status_code(),
    {
        match self {
            CheckoutError::Rule(e) => e.status_code(),
            CheckoutError::Processor(_) => 422,
            CheckoutError::Settlement(_) => 500,
            CheckoutError::UnexpectedReply => 500,
        }
    }

    /// The failure in words: the rule's message, the provider's description,
    /// or the external ledger's account.
    pub open spec fn spec_message(self) -> Seq<char> {
        match self {
            CheckoutError::Rule(e) => e.spec_message(),
            CheckoutError::Processor(e) => e.description@,
            CheckoutError::Settlement(text) => text@,
            CheckoutError::UnexpectedReply => "The payment provider answered out of turn"@,
        }
    }

    /// The failure in words.
    pub fn message(&self) -> (m: String)
        ensures
            m@ == self.spec_message(),
    {
        match self {
            CheckoutError::Rule(e) => e.message(),
            CheckoutError::Processor(e) => e.description.clone(),
            CheckoutError::Settlement(text) => text.clone(),
            CheckoutError::UnexpectedReply => "The payment provider answered out of turn".to_string(),
        }
    }
}

/// What the box office asks a payment provider to do.
#[derive(Clone, Debug, PartialEq, Eq)]
pub enum Command {
    CreateTokenForRepeatCharges { token: String, description: String },
    UpdateRepeatToken { repeat_token: String, token: String, description: String },
    Auth {
        token: String,
        amount: i64,
        currency: String,
        description: String,
        metadata: Vec<(String, String)>,
    },
    CompleteAuthedCharge { auth_token: String },
    Refund { auth_token: String },
}

/// A transfer of tokens on the external ledger.
#[derive(Clone, Debug, PartialEq, Eq)]
pub struct TransferTokens {
    pub sender_secret_key: String,
    pub sender_public_key: String,
    pub asset: String,
    pub token_ids: Vec<u64>,
    pub recipient_public_key: String,
}

/// What has to be done next for a checkout.
#[derive(Clone, Debug, PartialEq, Eq)]
pub enum Action {
    /// Ask the payment provider.
    Ask(Command),
    /// Move tokens on the external ledger.
    Transfer(TransferTokens),
    /// Nothing: the checkout has ended.
    Nothing,
}

/// What came back from performing an action.
#[derive(Debug, PartialEq, Eq)]
pub enum Reply {
    RepeatToken(Result<RepeatChargeToken, PaymentProcessorError>),
    Authorized(Result<ChargeAuthResult, PaymentProcessorError>),
    Charged(Result<ChargeResult, PaymentProcessorError>),
    Refunded(Result<ChargeAuthResult, PaymentProcessorError>),
    Transferred(Result<(), String>),
}

/// Where a checkout stands between two steps.
#[allow(inconsistent_fields)]
#[derive(Debug, PartialEq, Eq)]
pub enum Stage {
    /// A token for repeated charges was asked for: a new one, or an update of
    /// the one of the stored method `method_id`.
    AwaitingRepeatToken {
        order_id: u128,
        user_id: u128,
        amount: i64,
        provider: String,
        method_id: Option<u128>,
        set_default: bool,
    },
    /// The authorization of the charge was asked for.
    AwaitingAuth { order_id: u128, user_id: u128, amount: i64, provider: String },
    /// The payment is recorded as authorized; its completion was asked for.
    AwaitingCapture { order_id: u128, payment_id: u128, auth_token: String },
    /// A refund of the authorized charge was asked for, because of `cause`.
    AwaitingRefund { payment_id: Option<u128>, cause: CheckoutError },
    /// The order is paid; the deliveries before `next` are made or under way.
    Settling {
        payment_id: u128,
        recipient_public_key: String,
        deliveries: Vec<Delivery>,
        next: usize,
    },
    /// The checkout has ended.
    Finished(Result<CheckoutResponse, CheckoutError>),
}

/// The outcome of a step: where the checkout stands, and what to do next.
#[derive(Debug, PartialEq, Eq)]
pub struct Step {
    pub stage: Stage,
    pub action: Action,
}

/// The step that ends a checkout with a refusal.
pub open spec fn refused(e: BusinessError) -> Step {
    Step { stage: Stage::Finished(Err(CheckoutError::Rule(e))), action: Action::Nothing }
}

/// The step that ends a checkout with a failure.
pub open spec fn failed(e: CheckoutError) -> Step {
    Step { stage: Stage::Finished(Err(e)), action: Action::Nothing }
}

/// Ends a checkout with a refusal.
pub fn refuse(e: BusinessError) -> (step: Step)
    ensures
        step == refused(e),
{
    Step { stage: Stage::Finished(Err(CheckoutError::Rule(e))), action: Action::Nothing }
}

/// Ends a checkout with a failure.
pub fn fail(e: CheckoutError) -> (step: Step)
    ensures
        step == failed(e),
{
    Step { stage: Stage::Finished(Err(e)), action: Action::Nothing }
}

/// Whether the action asks to authorize a charge of `amount` on `token` for
/// the order: in the configured currency, under the configured description,
/// with the order's identifier, written as text, as the one piece of
/// metadata, under the key `order_id`.
pub open spec fn is_auth_for(action: Action, token: String, amount: i64, config: Config, order_id: u128) -> bool {
    action matches Action::Ask(
        Command::Auth { token: t, amount: a, currency, description, metadata },
    ) && t == token && a == amount && currency == config.primary_currency && description
        == config.charge_description && metadata@.len() == 1 && metadata@[0].0@ == "order_id"@
        && metadata@[0].1@ == uuid_text(order_id)
}

/// The action that asks to authorize a charge, given the order's identifier
/// as text.
pub fn auth_command(token: String, amount: i64, config: &Config, order_id_text: String) -> (action:
    Action)
    ensures
        action matches Action::Ask(
            Command::Auth { token: t, amount: a, currency, description, metadata },
        ) && t == token && a == amount && currency == config.primary_currency && description
            == config.charge_description && metadata@.len() == 1 && metadata@[0].0@ == "order_id"@
            && metadata@[0].1 == order_id_text,
{
    let mut metadata: Vec<(String, String)> = Vec::new();
    metadata.push(("order_id".to_string(), order_id_text));
    Action::Ask(
        Command::Auth {
            token,
            amount,
            currency: config.primary_currency.clone(),
            description: config.charge_description.clone(),
            metadata,
        },
    )
}

/// The step that asks to authorize a charge for the order.
pub fn ask_auth(
    order_id: u128,
    user_id: u128,
    amount: i64,
    provider: String,
    token: String,
    config: &Config,
) -> (step: Step)
    ensures
        step.stage == (Stage::AwaitingAuth { order_id, user_id, amount, provider }),
        is_auth_for(step.action, token, amount, *config, order_id),
{
    let text = write_uuid(order_id);
    Step {
        stage: Stage::AwaitingAuth { order_id, user_id, amount, provider },
        action: auth_command(token, amount, config, text),
    }
}

/// Whether the order has a payment that still counts.
pub open spec fn has_active_payment(payments: Seq<Payment>, order_id: u128) -> bool {
    exists|i: int|
        0 <= i < payments.len() && (#[trigger] payments[i]).order_id == order_id
            && payments[i].is_active()
}

/// Whether the order has a payment that still counts, computed.
pub fn order_has_active_payment(payments: &Vec<Payment>, order_id: u128) -> (b: bool)
    ensures
        b == has_active_payment(payments@, order_id),
{
    let mut i: usize = 0;
    while i < payments.len()
        invariant
            i <= payments.len(),
            forall|j: int|
                0 <= j < i ==> !((#[trigger] payments@[j]).order_id == order_id
                    && payments@[j].is_active()),
        decreases payments.len() - i,
    {
        let p = &payments[i];
        if p.order_id == order_id && (p.status == PaymentStatus::Authorized || p.status
            == PaymentStatus::Completed) {
            return true;
        }
        i += 1;
    }
    false
}

/// A copy of some token ids.
pub fn copy_tokens(tokens: &Vec<u64>) -> (r: Vec<u64>)
    ensures
        r@ == tokens@,
{
    let mut r: Vec<u64> = Vec::new();
    let mut i: usize = 0;
    while i < tokens.len()
        invariant
            i <= tokens.len(),
            r@ == tokens@.take(i as int),
        decreases tokens.len() - i,
    {
        r.push(tokens[i]);
        assert(tokens@.take(i + 1) == tokens@.take(i as int).push(tokens@[i as int]));
        i += 1;
    }
    assert(tokens@.take(tokens@.len() as int) == tokens@);
    r
}

/// Why the delivery at `next` cannot be made, if it cannot: its asset is
/// unknown or has no identity on the external ledger
/// (`AssetNotProvisioned`), or the wallet that holds the tokens is unknown
/// (`NoResults`).
pub open spec fn delivery_refusal(store: Store, d: Delivery) -> Option<BusinessError> {
    match first(store.assets@, Lookup::Id(d.asset_id)) {
        None => Some(BusinessError::AssetNotProvisioned),
        Some(a) => if store.assets@[a].blockchain_asset_id is None {
            Some(BusinessError::AssetNotProvisioned)
        } else if first(store.wallets@, Lookup::Id(d.wallet_id)) is None {
            Some(BusinessError::NoResults)
        } else {
            None
        },
    }
}

/// Whether `step` is what comes next in the settlement of a paid order whose
/// deliveries before `next` are made.
///
/// With no delivery left the checkout ends with the payment's id. A delivery
/// that cannot be made (see [`delivery_refusal`]) ends it with that refusal.
/// Else the step asks to move the delivery's tokens, under the asset's
/// identity, out of the wallet that holds them to the recipient, and the
/// settlement stands at the delivery after.
pub open spec fn is_next_delivery(
    store: Store,
    payment_id: u128,
    recipient_public_key: String,
    deliveries: Vec<Delivery>,
    next: usize,
    step: Step,
) -> bool {
    if next >= deliveries@.len() {
        step == (Step {
            stage: Stage::Finished(Ok(CheckoutResponse { payment_id })),
            action: Action::Nothing,
        })
    } else {
        let d = deliveries@[next as int];
        match delivery_refusal(store, d) {
            Some(e) => step == refused(e),
            None => {
                let asset = store.assets@[first(store.assets@, Lookup::Id(d.asset_id))->0];
                let wallet = store.wallets@[first(store.wallets@, Lookup::Id(d.wallet_id))->0];
                &&& step.stage == (Stage::Settling {
                    payment_id,
                    recipient_public_key,
                    deliveries,
                    next: (next + 1) as usize,
                })
                &&& step.action matches Action::Transfer(t)
                &&& t.sender_secret_key == wallet.secret_key
                &&& t.sender_public_key == wallet.public_key
                &&& Some(t.asset) == asset.blockchain_asset_id
                &&& t.token_ids@ == d.token_ids@
                &&& t.recipient_public_key == recipient_public_key
            },
        }
    }
}

/// Whether `step` starts the settlement of a paid order by the plan `plan`:
/// it is what comes next (see [`is_next_delivery`]) for deliveries that read
/// as the plan, none of them made yet.
pub open spec fn starts_settlement(
    store: Store,
    payment_id: u128,
    recipient_public_key: String,
    plan: Seq<DeliveryView>,
    step: Step,
) -> bool {
    exists|deliveries: Vec<Delivery>|
        delivery_views(deliveries@) == plan && #[trigger] is_next_delivery(
            store,
            payment_id,
            recipient_public_key,
            deliveries,
            0,
            step,
        )
}

/// The next step in the settlement of a paid order.
pub fn settle_next(
    store: &Store,
    payment_id: u128,
    recipient_public_key: String,
    deliveries: Vec<Delivery>,
    next: usize,
) -> (step: Step)
    ensures
        is_next_delivery(*store, payment_id, recipient_public_key, deliveries, next, step),
{
    if next >= deliveries.len() {
        return Step {
            stage: Stage::Finished(Ok(CheckoutResponse { payment_id })),
            action: Action::Nothing,
        };
    }
    let asset = match position(&store.assets, &Lookup::Id(deliveries[next].asset_id)) {
        None => {
            return refuse(BusinessError::AssetNotProvisioned);
        },
        Some(a) => match &store.assets[a].blockchain_asset_id {
            None => {
                return refuse(BusinessError::AssetNotProvisioned);
            },
            Some(name) => name.clone(),
        },
    };
    let w = match position(&store.wallets, &Lookup::Id(deliveries[next].wallet_id)) {
        None => {
            return refuse(BusinessError::NoResults);
        },
        Some(w) => w,
    };
    let transfer = TransferTokens {
        sender_secret_key: store.wallets[w].secret_key.clone(),
        sender_public_key: store.wallets[w].public_key.clone(),
        asset,
        token_ids: copy_tokens(&deliveries[next].token_ids),
        recipient_public_key: recipient_public_key.clone(),
    };
    Step {
        stage: Stage::Settling { payment_id, recipient_public_key, deliveries, next: next + 1 },
        action: Action::Transfer(transfer),
    }
}

/// The step after a reply from the external ledger: a failure ends the
/// checkout and is reported as it came, with no delivery after it and the
/// payment left standing; a success leads to the next delivery.
pub fn on_transferred(
    store: &Store,
    payment_id: u128,
    recipient_public_key: String,
    deliveries: Vec<Delivery>,
    next: usize,
    reply: Result<(), String>,
) -> (step: Step)
    ensures
        match reply {
            Err(e) => step == failed(CheckoutError::Settlement(e)),
            Ok(_) => is_next_delivery(
                *store,
                payment_id,
                recipient_public_key,
                deliveries,
                next,
                step,
            ),
        },
{
    match reply {
        Err(e) => fail(CheckoutError::Settlement(e)),
        Ok(_) => settle_next(store, payment_id, recipient_public_key, deliveries, next),
    }
}

/// Marks the order at `o` as paid and sells the tickets that its items hold
/// to the owner of the wallet.
pub(crate) fn pay_order(store: &mut Store, o: usize, wallet_id: u128)
    requires
        o < old(store).orders@.len(),
    ensures
        *final(store) == (Store {
            ledger: final(store).ledger,
            orders: final(store).orders,
            ..*old(store)
        }),
        views(final(store).orders@) == views(old(store).orders@).update(
            o as int,
            OrderView { status: OrderStatus::Paid, ..old(store).orders@[o as int]@ },
        ),
        final(store).ledger@ == purchased(
            old(store).ledger@,
            item_ids(old(store).orders@[o as int].items@),
            wallet_id,
        ),
        old(store).ledger.wf() ==> final(store).ledger.wf(),
        one_cart_each(old(store).orders@) ==> one_cart_each(final(store).orders@),
        no_empty_cart(old(store).orders@) ==> no_empty_cart(final(store).orders@),
        order_ids_below(old(store).orders@, old(store).next_id) ==> order_ids_below(
            final(store).orders@,
            final(store).next_id,
        ),
        distinct_orders(old(store).orders@) ==> distinct_orders(final(store).orders@),
{
    let ghost before = store.orders@;
    let mut order = store.orders.remove(o);
    purchase_items(&mut store.ledger, &order.items, wallet_id);
    order.status = OrderStatus::Paid;
    store.orders.insert(o, order);
    proof {
        let after = store.orders@;
        assert(views(after) =~= views(before).update(
            o as int,
            OrderView { status: OrderStatus::Paid, ..before[o as int]@ },
        ));
        assert(after[o as int].items@ == before[o as int].items@);
        if order_ids_below(before, store.next_id) {
            assert forall|j: int| 0 <= j < after[o as int].items@.len() implies (
            #[trigger] after[o as int].items@[j]).id < store.next_id by {
                assert(before[o as int].items@[j].id < store.next_id);
            }
        }
        lemma_order_replaced(before, after, o as int, store.next_id);
    }
}

/// Why an authorized charge cannot be recorded on the order, if it cannot:
/// the order is gone, it has a payment that still counts, or no identifier
/// is left.
pub open spec fn record_refusal(store: Store, order_id: u128) -> bool {
    first(store.orders@, Lookup::Id(order_id)) is None || has_active_payment(
        store.payments@,
        order_id,
    ) || store.next_id == u128::MAX
}

/// What the step after the reply to an authorization comes to.
///
/// A failed authorization ends the checkout with the provider's error, and
/// the store is as it was. A charge that is authorized but cannot be
/// recorded (see [`record_refusal`]) is refunded at once: the step asks for
/// the refund of that charge and will end with `PersistenceError`, and the
/// store is as it was. Else the payment is recorded as authorized under the
/// next identifier, with the provider's reference and answer, and the step
/// asks to complete the charge.
pub open spec fn authorized_step(
    before: Store,
    after: Store,
    order_id: u128,
    user_id: u128,
    amount: i64,
    provider: String,
    reply: Result<ChargeAuthResult, PaymentProcessorError>,
    step: Step,
) -> bool {
    match reply {
        Err(e) => step == failed(CheckoutError::Processor(e)) && after == before,
        Ok(auth) => if record_refusal(before, order_id) {
            &&& after == before
            &&& step == (Step {
                stage: Stage::AwaitingRefund {
                    payment_id: None,
                    cause: CheckoutError::Rule(BusinessError::PersistenceError),
                },
                action: Action::Ask(Command::Refund { auth_token: auth.id }),
            })
        } else {
            let payment = after.payments@.last();
            &&& after == (Store {
                payments: after.payments,
                next_id: (before.next_id + 1) as u128,
                ..before
            })
            &&& after.payments@.len() == before.payments@.len() + 1
            &&& after.payments@.drop_last() == before.payments@
            &&& payment == (Payment {
                id: before.next_id,
                order_id,
                created_by: user_id,
                amount,
                provider,
                external_reference: auth.id,
                status: PaymentStatus::Authorized,
                raw_data: payment.raw_data,
            })
            &&& payment.raw_data@ == seq![auth.raw]
            &&& step == (Step {
                stage: Stage::AwaitingCapture {
                    order_id,
                    payment_id: before.next_id,
                    auth_token: auth.id,
                },
                action: Action::Ask(Command::CompleteAuthedCharge { auth_token: auth.id }),
            })
        },
    }
}

/// The step after the reply to an authorization: see [`authorized_step`].
pub fn on_authorized(
    store: &mut Store,
    order_id: u128,
    user_id: u128,
    amount: i64,
    provider: String,
    reply: Result<ChargeAuthResult, PaymentProcessorError>,
) -> (step: Step)
    ensures
        authorized_step(*old(store), *final(store), order_id, user_id, amount, provider, reply, step),
        old(store).wf() ==> final(store).wf(),
{
    let auth = match reply {
        Err(e) => {
            return fail(CheckoutError::Processor(e));
        },
        Ok(auth) => auth,
    };
    if position(&store.orders, &Lookup::Id(order_id)).is_none() || order_has_active_payment(
        &store.payments,
        order_id,
    ) || store.next_id == u128::MAX {
        return Step {
            stage: Stage::AwaitingRefund {
                payment_id: None,
                cause: CheckoutError::Rule(BusinessError::PersistenceError),
            },
            action: Action::Ask(Command::Refund { auth_token: auth.id }),
        };
    }
    let ghost before = store.payments@;
    let payment_id = store.next_id;
    let mut raw_data: Vec<String> = Vec::new();
    raw_data.push(auth.raw);
    store.payments.push(
        Payment {
            id: payment_id,
            order_id,
            created_by: user_id,
            amount,
            provider,
            external_reference: auth.id.clone(),
            status: PaymentStatus::Authorized,
            raw_data,
        },
    );
    store.next_id = payment_id + 1;
    proof {
        assert(store.payments@.drop_last() =~= before);
        if one_active_payment_each(before) {
            assert forall|i: int, j: int|
                0 <= i < j < store.payments@.len() && (#[trigger] store.payments@[i]).is_active() && (
                #[trigger] store.payments@[j]).is_active() implies store.payments@[i].order_id
                != store.payments@[j].order_id by {
                if j == before.len() {
                    assert(store.payments@[i] == before[i]);
                } else {
                    assert(store.payments@[i] == before[i]);
                    assert(store.payments@[j] == before[j]);
                }
            }
        }
    }
    Step {
        stage: Stage::AwaitingCapture { order_id, payment_id, auth_token: auth.id.clone() },
        action: Action::Ask(Command::CompleteAuthedCharge { auth_token: auth.id }),
    }
}

/// Why a completed charge cannot be booked at `now`, if it cannot: the
/// payment is gone or no longer authorized (`InvalidPaymentStatus`), the
/// order is gone or no longer a draft (`InvalidOrderStatus`), the order's
/// owner has no default wallet for the tickets to go to (`NoResults`), or an
/// item of the order no longer holds its tickets (`InsufficientInventory`).
pub open spec fn capture_refusal(store: Store, order_id: u128, payment_id: u128, now: i64) -> Option<
    BusinessError,
> {
    match first(store.payments@, Lookup::Id(payment_id)) {
        None => Some(BusinessError::InvalidPaymentStatus),
        Some(p) => if store.payments@[p].status != PaymentStatus::Authorized {
            Some(BusinessError::InvalidPaymentStatus)
        } else {
            match first(store.orders@, Lookup::Id(order_id)) {
                None => Some(BusinessError::InvalidOrderStatus),
                Some(o) => if store.orders@[o].status != OrderStatus::Draft {
                    Some(BusinessError::InvalidOrderStatus)
                } else if first(store.wallets@, Lookup::DefaultOf(store.orders@[o].user_id))
                    is None {
                    Some(BusinessError::NoResults)
                } else if !fully_reserved(store.ledger@, store.orders@[o].items@, now) {
                    Some(BusinessError::InsufficientInventory)
                } else {
                    None
                },
            }
        },
    }
}

/// What the step after the reply to the completion of a charge comes to.
///
/// Where the completion failed, or succeeded but cannot be booked (see
/// [`capture_refusal`]), nothing is changed: the order is a draft as before,
/// its items and the ledger are as they were, the payment is not completed,
/// and the step asks for the refund of the authorized charge and will end
/// with the provider's error or with the refusal.
///
/// Where it can be booked, payment and order are marked in one go: the
/// payment is completed and files the provider's answer, the order is paid,
/// and the tickets that its items hold are sold to the owner's default
/// wallet. The settlement starts: the plan is the one for the tickets as
/// they were held before the sale, and the step is its first delivery.
pub open spec fn charged_step(
    before: Store,
    after: Store,
    order_id: u128,
    payment_id: u128,
    auth_token: String,
    reply: Result<ChargeResult, PaymentProcessorError>,
    now: i64,
    step: Step,
) -> bool {
    match reply {
        Err(e) => after == before && step == (Step {
            stage: Stage::AwaitingRefund {
                payment_id: Some(payment_id),
                cause: CheckoutError::Processor(e),
            },
            action: Action::Ask(Command::Refund { auth_token }),
        }),
        Ok(charge) => match capture_refusal(before, order_id, payment_id, now) {
            Some(e) => after == before && step == (Step {
                stage: Stage::AwaitingRefund {
                    payment_id: Some(payment_id),
                    cause: CheckoutError::Rule(e),
                },
                action: Action::Ask(Command::Refund { auth_token }),
            }),
            None => {
                let p = first(before.payments@, Lookup::Id(payment_id))->0;
                let o = first(before.orders@, Lookup::Id(order_id))->0;
                let w = first(before.wallets@, Lookup::DefaultOf(before.orders@[o].user_id))->0;
                &&& after == (Store {
                    ledger: after.ledger,
                    orders: after.orders,
                    payments: after.payments,
                    ..before
                })
                &&& after.payments@ == before.payments@.update(
                    p,
                    Payment {
                        status: PaymentStatus::Completed,
                        raw_data: after.payments@[p].raw_data,
                        ..before.payments@[p]
                    },
                )
                &&& after.payments@[p].raw_data@ == before.payments@[p].raw_data@.push(charge.raw)
                &&& views(after.orders@) == views(before.orders@).update(
                    o,
                    OrderView { status: OrderStatus::Paid, ..before.orders@[o]@ },
                )
                &&& after.ledger@ == purchased(
                    before.ledger@,
                    item_ids(before.orders@[o].items@),
                    before.wallets@[w].id,
                )
                &&& starts_settlement(
                    after,
                    payment_id,
                    before.wallets@[w].public_key,
                    order_plan(before.ledger@, before.orders@[o].items@),
                    step,
                )
            },
        },
    }
}

/// The step after the reply to the completion of a charge: see
/// [`charged_step`].
pub fn on_charged(
    store: &mut Store,
    order_id: u128,
    payment_id: u128,
    auth_token: String,
    reply: Result<ChargeResult, PaymentProcessorError>,
    now: i64,
) -> (step: Step)
    ensures
        charged_step(
            *old(store),
            *final(store),
            order_id,
            payment_id,
            auth_token,
            reply,
            now,
            step,
        ),
        old(store).wf() ==> final(store).wf(),
{
    let charge = match reply {
        Err(e) => {
            return Step {
                stage: Stage::AwaitingRefund {
                    payment_id: Some(payment_id),
                    cause: CheckoutError::Processor(e),
                },
                action: Action::Ask(Command::Refund { auth_token }),
            };
        },
        Ok(charge) => charge,
    };
    let mut refusal: Option<BusinessError> = None;
    let mut p: usize = 0;
    let mut o: usize = 0;
    let mut w: usize = 0;
    match position(&store.payments, &Lookup::Id(payment_id)) {
        None => {
            refusal = Some(BusinessError::InvalidPaymentStatus);
        },
        Some(found) => {
            p = found;
            if store.payments[p].status != PaymentStatus::Authorized {
                refusal = Some(BusinessError::InvalidPaymentStatus);
            } else {
                match position(&store.orders, &Lookup::Id(order_id)) {
                    None => {
                        refusal = Some(BusinessError::InvalidOrderStatus);
                    },
                    Some(found) => {
                        o = found;
                        if store.orders[o].status != OrderStatus::Draft {
                            refusal = Some(BusinessError::InvalidOrderStatus);
                        } else {
                            match position(
                                &store.wallets,
                                &Lookup::DefaultOf(store.orders[o].user_id),
                            ) {
                                None => {
                                    refusal = Some(BusinessError::NoResults);
                                },
                                Some(found) => {
                                    w = found;
                                    if !holds_in_full(&store.ledger, &store.orders[o].items, now) {
                                        refusal = Some(BusinessError::InsufficientInventory);
                                    }
                                },
                            }
                        }
                    },
                }
            }
        },
    }
    if let Some(e) = refusal {
        return Step {
            stage: Stage::AwaitingRefund {
                payment_id: Some(payment_id),
                cause: CheckoutError::Rule(e),
            },
            action: Action::Ask(Command::Refund { auth_token }),
        };
    }
    let ghost before = *store;
    let plan = plan_deliveries(&store.ledger, &store.orders[o].items);
    let recipient = store.wallets[w].public_key.clone();
    let wallet_id = store.wallets[w].id;
    let mut payment = store.payments.remove(p);
    let _marked = payment.mark_complete(charge.raw);
    store.payments.insert(p, payment);
    proof {
        assert(store.payments@ =~= before.payments@.update(
            p as int,
            Payment {
                status: PaymentStatus::Completed,
                raw_data: store.payments@[p as int].raw_data,
                ..before.payments@[p as int]
            },
        ));
        if one_active_payment_each(before.payments@) {
            assert forall|i: int, j: int|
                0 <= i < j < store.payments@.len() && (#[trigger] store.payments@[i]).is_active() && (
                #[trigger] store.payments@[j]).is_active() implies store.payments@[i].order_id
                != store.payments@[j].order_id by {
                assert(before.payments@[i].is_active() && before.payments@[j].is_active());
            }
        }
    }
    pay_order(store, o, wallet_id);
    let ghost planned = plan;
    let ghost key = recipient;
    let step = settle_next(store, payment_id, recipient, plan, 0);
    proof {
        assert(is_next_delivery(*store, payment_id, key, planned, 0, step));
        assert(starts_settlement(
            *store,
            payment_id,
            before.wallets@[w as int].public_key,
            order_plan(before.ledger@, before.orders@[o as int].items@),
            step,
        ));
    }
    step
}

/// The payment that a refund is booked on: the one with this id, if there
/// is one and it is still authorized.
pub open spec fn refund_target(store: Store, payment_id: Option<u128>) -> Option<int> {
    match payment_id {
        None => None,
        Some(id) => match first(store.payments@, Lookup::Id(id)) {
            None => None,
            Some(p) => if store.payments@[p].status == PaymentStatus::Authorized {
                Some(p)
            } else {
                None
            },
        },
    }
}

/// What the step after the reply to a refund comes to.
///
/// The checkout ends with the cause of the refund, whatever the refund was
/// answered with: a refund that fails does not take the place of what went
/// wrong before it. The payment that was recorded for the charge, if any and
/// if still authorized, is from now refunded and files the provider's answer;
/// where the refund did not go through it is from now failed and files the
/// description of the provider's error. Nothing else changes.
pub open spec fn refunded_step(
    before: Store,
    after: Store,
    payment_id: Option<u128>,
    cause: CheckoutError,
    reply: Result<ChargeAuthResult, PaymentProcessorError>,
    step: Step,
) -> bool {
    &&& step == failed(cause)
    &&& match refund_target(before, payment_id) {
        None => after == before,
        Some(p) => {
            &&& after == (Store { payments: after.payments, ..before })
            &&& after.payments@ == before.payments@.update(
                p,
                Payment {
                    status: if reply is Ok {
                        PaymentStatus::Refunded
                    } else {
                        PaymentStatus::Failed
                    },
                    raw_data: after.payments@[p].raw_data,
                    ..before.payments@[p]
                },
            )
            &&& after.payments@[p].raw_data@ == before.payments@[p].raw_data@.push(
                match reply {
                    Ok(refund) => refund.raw,
                    Err(e) => e.description,
                },
            )
        },
    }
}

/// The step after the reply to a refund: see [`refunded_step`].
pub fn on_refunded(
    store: &mut Store,
    payment_id: Option<u128>,
    cause: CheckoutError,
    reply: Result<ChargeAuthResult, PaymentProcessorError>,
) -> (step: Step)
    ensures
        refunded_step(*old(store), *final(store), payment_id, cause, reply, step),
        old(store).wf() ==> final(store).wf(),
{
    let mut target: Option<usize> = None;
    if let Some(id) = payment_id {
        if let Some(p) = position(&store.payments, &Lookup::Id(id)) {
            if store.payments[p].status == PaymentStatus::Authorized {
                target = Some(p);
            }
        }
    }
    let ghost before = store.payments@;
    match reply {
        Ok(refund) => {
            if let Some(p) = target {
                let mut payment = store.payments.remove(p);
                payment.status = PaymentStatus::Refunded;
                payment.raw_data.push(refund.raw);
                store.payments.insert(p, payment);
                proof {
                    assert(store.payments@ =~= before.update(
                        p as int,
                        Payment {
                            status: PaymentStatus::Refunded,
                            raw_data: store.payments@[p as int].raw_data,
                            ..before[p as int]
                        },
                    ));
                }
            }
            proof {
                lemma_fewer_active(before, store.payments@);
            }
            fail(cause)
        },
        Err(e) => {
            if let Some(p) = target {
                let mut payment = store.payments.remove(p);
                payment.status = PaymentStatus::Failed;
                payment.raw_data.push(e.description);
                store.payments.insert(p, payment);
                proof {
                    assert(store.payments@ =~= before.update(
                        p as int,
                        Payment {
                            status: PaymentStatus::Failed,
                            raw_data: store.payments@[p as int].raw_data,
                            ..before[p as int]
                        },
                    ));
                }
            }
            proof {
                lemma_fewer_active(before, store.payments@);
            }
            fail(cause)
        },
    }
}

/// Payments of which none has come to count that did not count before, and
/// none has changed its order, still count at most once on each order.
pub proof fn lemma_fewer_active(before: Seq<Payment>, after: Seq<Payment>)
    requires
        after.len() == before.len(),
        forall|i: int|
            0 <= i < before.len() ==> (#[trigger] after[i]).order_id == before[i].order_id && (
            after[i].is_active() ==> before[i].is_active()),
    ensures
        one_active_payment_each(before) ==> one_active_payment_each(after),
{
    if one_active_payment_each(before) {
        assert forall|i: int, j: int|
            0 <= i < j < after.len() && (#[trigger] after[i]).is_active() && (
            #[trigger] after[j]).is_active() implies after[i].order_id != after[j].order_id by {
            assert(before[i].is_active() && before[j].is_active());
        }
    }
}


/// What the step after the reply to a request for a repeat token comes to.
///
/// A failed request ends the checkout with the provider's error. Where the
/// token of a stored method was updated, the method files the provider's
/// answer and the charge goes on the method's stored token; a method that is
/// gone ends the checkout with `NoStoredPaymentMethod`. Where a new token was
/// made, it is stored as a new payment method of the account under the next
/// identifier, `PersistenceError` where none is left, and the charge goes
/// on the new token. The step then asks to authorize the charge.
pub open spec fn repeat_token_step(
    before: Store,
    after: Store,
    order_id: u128,
    user_id: u128,
    amount: i64,
    provider: String,
    method_id: Option<u128>,
    set_default: bool,
    reply: Result<RepeatChargeToken, PaymentProcessorError>,
    config: Config,
    step: Step,
) -> bool {
    match reply {
        Err(e) => step == failed(CheckoutError::Processor(e)) && after == before,
        Ok(repeat) => match method_id {
            Some(id) => match first(before.payment_methods@, Lookup::Id(id)) {
                None => step == refused(BusinessError::NoStoredPaymentMethod) && after == before,
                Some(m) => {
                    &&& after == (Store { payment_methods: after.payment_methods, ..before })
                    &&& after.payment_methods@ == before.payment_methods@.update(
                        m,
                        PaymentMethod { provider_data: repeat.raw, ..before.payment_methods@[m] },
                    )
                    &&& step.stage == (Stage::AwaitingAuth { order_id, user_id, amount, provider })
                    &&& is_auth_for(
                        step.action,
                        before.payment_methods@[m].provider,
                        amount,
                        config,
                        order_id,
                    )
                },
            },
            None => if before.next_id == u128::MAX {
                step == refused(BusinessError::PersistenceError) && after == before
            } else {
                &&& after == (Store {
                    payment_methods: after.payment_methods,
                    next_id: (before.next_id + 1) as u128,
                    ..before
                })
                &&& after.payment_methods@ == before.payment_methods@.push(
                    PaymentMethod {
                        id: before.next_id,
                        user_id,
                        name: provider,
                        is_default: set_default,
                        provider: repeat.token,
                        provider_data: repeat.raw,
                    },
                )
                &&& step.stage == (Stage::AwaitingAuth { order_id, user_id, amount, provider })
                &&& is_auth_for(step.action, repeat.token, amount, config, order_id)
            },
        },
    }
}

/// The step after the reply to a request for a repeat token: see
/// [`repeat_token_step`].
pub fn on_repeat_token(
    store: &mut Store,
    order_id: u128,
    user_id: u128,
    amount: i64,
    provider: String,
    method_id: Option<u128>,
    set_default: bool,
    reply: Result<RepeatChargeToken, PaymentProcessorError>,
    config: &Config,
) -> (step: Step)
    ensures
        repeat_token_step(
            *old(store),
            *final(store),
            order_id,
            user_id,
            amount,
            provider,
            method_id,
            set_default,
            reply,
            *config,
            step,
        ),
        old(store).wf() ==> final(store).wf(),
{
    let repeat = match reply {
        Err(e) => {
            return fail(CheckoutError::Processor(e));
        },
        Ok(repeat) => repeat,
    };
    let ghost before = store.payment_methods@;
    match method_id {
        Some(id) => {
            let m = match position(&store.payment_methods, &Lookup::Id(id)) {
                None => {
                    return refuse(BusinessError::NoStoredPaymentMethod);
                },
                Some(m) => m,
            };
            let mut method = store.payment_methods.remove(m);
            let token = method.provider.clone();
            method.provider_data = repeat.raw;
            store.payment_methods.insert(m, method);
            assert(store.payment_methods@ =~= before.update(
                m as int,
                PaymentMethod { provider_data: repeat.raw, ..before[m as int] },
            ));
            ask_auth(order_id, user_id, amount, provider, token, config)
        },
        None => {
            if store.next_id == u128::MAX {
                return refuse(BusinessError::PersistenceError);
            }
            let id = store.next_id;
            store.payment_methods.push(
                PaymentMethod {
                    id,
                    user_id,
                    name: provider.clone(),
                    is_default: set_default,
                    provider: repeat.token.clone(),
                    provider_data: repeat.raw,
                },
            );
            store.next_id = id + 1;
            ask_auth(order_id, user_id, amount, provider, repeat.token, config)
        },
    }
}

/// What a step of a checkout comes to: where it stood, what came back, and
/// by that the relation that holds of the store before and after and of the
/// outcome. A reply that does not answer the action that the stage waits
/// for ends the checkout with `UnexpectedReply` and changes nothing, and so
/// does any reply to a checkout that has ended.
pub open spec fn advanced(
    before: Store,
    after: Store,
    stage: Stage,
    reply: Reply,
    config: Config,
    now: i64,
    step: Step,
) -> bool {
    match (stage, reply) {
        (
            Stage::AwaitingRepeatToken { order_id, user_id, amount, provider, method_id, set_default },
            Reply::RepeatToken(r),
        ) => repeat_token_step(
            before,
            after,
            order_id,
            user_id,
            amount,
            provider,
            method_id,
            set_default,
            r,
            config,
            step,
        ),
        (
            Stage::AwaitingAuth { order_id, user_id, amount, provider },
            Reply::Authorized(r),
        ) => authorized_step(before, after, order_id, user_id, amount, provider, r, step),
        (
            Stage::AwaitingCapture { order_id, payment_id, auth_token },
            Reply::Charged(r),
        ) => charged_step(before, after, order_id, payment_id, auth_token, r, now, step),
        (Stage::AwaitingRefund { payment_id, cause }, Reply::Refunded(r)) => refunded_step(
            before,
            after,
            payment_id,
            cause,
            r,
            step,
        ),
        (
            Stage::Settling { payment_id, recipient_public_key, deliveries, next },
            Reply::Transferred(r),
        ) => after == before && match r {
            Err(e) => step == failed(CheckoutError::Settlement(e)),
            Ok(_) => is_next_delivery(
                before,
                payment_id,
                recipient_public_key,
                deliveries,
                next,
                step,
            ),
        },
        _ => after == before && step == failed(CheckoutError::UnexpectedReply),
    }
}

/// Takes a checkout one step further at the instant `now`: see
/// [`advanced`].
pub fn advance(store: &mut Store, stage: Stage, reply: Reply, config: &Config, now: i64) -> (step:
    Step)
    ensures
        advanced(*old(store), *final(store), stage, reply, *config, now, step),
        old(store).wf() ==> final(store).wf(),
{
    match stage {
        Stage::AwaitingRepeatToken { order_id, user_id, amount, provider, method_id, set_default } => {
            match reply {
                Reply::RepeatToken(r) => on_repeat_token(
                    store,
                    order_id,
                    user_id,
                    amount,
                    provider,
                    method_id,
                    set_default,
                    r,
                    config,
                ),
                _ => fail(CheckoutError::UnexpectedReply),
            }
        },
        Stage::AwaitingAuth { order_id, user_id, amount, provider } => match reply {
            Reply::Authorized(r) => on_authorized(store, order_id, user_id, amount, provider, r),
            _ => fail(CheckoutError::UnexpectedReply),
        },
        Stage::AwaitingCapture { order_id, payment_id, auth_token } => match reply {
            Reply::Charged(r) => on_charged(store, order_id, payment_id, auth_token, r, now),
            _ => fail(CheckoutError::UnexpectedReply),
        },
        Stage::AwaitingRefund { payment_id, cause } => match reply {
            Reply::Refunded(r) => on_refunded(store, payment_id, cause, r),
            _ => fail(CheckoutError::UnexpectedReply),
        },
        Stage::Settling { payment_id, recipient_public_key, deliveries, next } => match reply {
            Reply::Transferred(r) => on_transferred(
                store,
                payment_id,
                recipient_public_key,
                deliveries,
                next,
                r,
            ),
            _ => fail(CheckoutError::UnexpectedReply),
        },
        Stage::Finished(_) => fail(CheckoutError::UnexpectedReply),
    }
}

/// Whether the reply is of the kind that answers the command.
pub open spec fn answers(command: Command, reply: Reply) -> bool {
    match command {
        Command::CreateTokenForRepeatCharges { .. } => reply is RepeatToken,
        Command::UpdateRepeatToken { .. } => reply is RepeatToken,
        Command::Auth { .. } => reply is Authorized,
        Command::CompleteAuthedCharge { .. } => reply is Charged,
        Command::Refund { .. } => reply is Refunded,
    }
}

/// Whether the reply refuses the command because the processor redirects
/// to a payment page: it is of the kind that answers the command, and it is
/// the error that says so, with no cause behind it.
pub open spec fn is_redirect_refusal(command: Command, reply: Reply) -> bool {
    &&& answers(command, reply)
    &&& match reply {
        Reply::RepeatToken(r) => r matches Err(e) && is_redirect_error(e),
        Reply::Authorized(r) => r matches Err(e) && is_redirect_error(e),
        Reply::Charged(r) => r matches Err(e) && is_redirect_error(e),
        Reply::Refunded(r) => r matches Err(e) && is_redirect_error(e),
        Reply::Transferred(_) => false,
    }
}

/// Whether the error says that the provider redirects to a payment page.
pub open spec fn is_redirect_error(e: PaymentProcessorError) -> bool {
    e.description@ == "the provider redirects to a payment page"@ && e.cause is None
}

/// Performs a command on a processor whose behavior is at hand, and brings
/// back what it answered.
///
/// A refund goes to the processor itself, whatever its behavior. The other
/// commands go to the behavior, if that is to authorize and complete. A
/// processor that redirects to a payment page is asked nothing: each of those
/// commands is refused by the box office itself, with the error that says
/// that the provider redirects. Nothing is promised of what a processor or a
/// behavior answers.
pub fn perform_as<P: PaymentProcessor>(
    processor: &P,
    behavior: PaymentProcessorBehavior,
    command: Command,
) -> (reply: Reply)
    ensures
        answers(command, reply),
        behavior is RedirectToPaymentPage && !(command is Refund) ==> is_redirect_refusal(
            command,
            reply,
        ),
{
    match command {
        Command::Refund { auth_token } => Reply::Refunded(processor.refund(auth_token.as_str())),
        other => match behavior {
            PaymentProcessorBehavior::AuthThenComplete(behavior) => match other {
                Command::CreateTokenForRepeatCharges { token, description } => Reply::RepeatToken(
                    behavior.create_token_for_repeat_charges(token.as_str(), description.as_str()),
                ),
                Command::UpdateRepeatToken { repeat_token, token, description } => Reply::RepeatToken(
                    behavior.update_repeat_token(
                        repeat_token.as_str(),
                        token.as_str(),
                        description.as_str(),
                    ),
                ),
                Command::Auth { token, amount, currency, description, metadata } => Reply::Authorized(
                    behavior.auth(
                        token.as_str(),
                        amount,
                        currency.as_str(),
                        description.as_str(),
                        metadata,
                    ),
                ),
                Command::CompleteAuthedCharge { auth_token } => Reply::Charged(
                    behavior.complete_authed_charge(auth_token.as_str()),
                ),
                Command::Refund { auth_token } => Reply::Refunded(
                    processor.refund(auth_token.as_str()),
                ),
            },
            PaymentProcessorBehavior::RedirectToPaymentPage => {
                let e = PaymentProcessorError {
                    description: "the provider redirects to a payment page".to_string(),
                    cause: None,
                };
                match other {
                    Command::CreateTokenForRepeatCharges { .. } => Reply::RepeatToken(Err(e)),
                    Command::UpdateRepeatToken { .. } => Reply::RepeatToken(Err(e)),
                    Command::Auth { .. } => Reply::Authorized(Err(e)),
                    Command::CompleteAuthedCharge { .. } => Reply::Charged(Err(e)),
                    Command::Refund { auth_token } => Reply::Refunded(
                        processor.refund(auth_token.as_str()),
                    ),
                }
            },
        },
    }
}

/// Performs a command on a payment processor and brings back what it
/// answered: a refund goes to the processor itself; for any other command
/// the processor is asked for its behavior, and the command is performed as
/// [`perform_as`] says. Nothing is promised of what a processor answers.
pub fn perform<P: PaymentProcessor>(processor: &P, command: Command) -> (reply: Reply)
    ensures
        answers(command, reply),
{
    match command {
        Command::Refund { auth_token } => Reply::Refunded(processor.refund(auth_token.as_str())),
        other => {
            let behavior = processor.behavior();
            perform_as(processor, behavior, other)
        },
    }
}

/// Checkout atomicity. Let the completion of an authorized charge fail, and
/// let the refund that the box office then asks for be answered either way.
/// Then the refund was asked for the charge that was authorized; the store
/// after the failed completion is the store before it; after the refund the
/// orders, so the order's status and items, and the ledger are still as they
/// were; no payment has become completed; and the checkout has ended with
/// the error of the completion, whatever the refund was answered with.
pub proof fn law_checkout_atomicity(
    s0: Store,
    s1: Store,
    s2: Store,
    order_id: u128,
    payment_id: u128,
    auth_token: String,
    failure: PaymentProcessorError,
    refund: Result<ChargeAuthResult, PaymentProcessorError>,
    config: Config,
    now: i64,
    later: i64,
    step1: Step,
    step2: Step,
)
    requires
        advanced(
            s0,
            s1,
            Stage::AwaitingCapture { order_id, payment_id, auth_token },
            Reply::Charged(Err(failure)),
            config,
            now,
            step1,
        ),
        advanced(s1, s2, step1.stage, Reply::Refunded(refund), config, later, step2),
    ensures
        step1.action == Action::Ask(Command::Refund { auth_token }),
        s1 == s0,
        s2.orders == s0.orders,
        s2.ledger == s0.ledger,
        s2.payments@.len() == s0.payments@.len(),
        forall|i: int|
            0 <= i < s0.payments@.len() && (#[trigger] s2.payments@[i]).status
                == PaymentStatus::Completed ==> s0.payments@[i].status == PaymentStatus::Completed,
        refund_target(s0, Some(payment_id)) matches Some(p) ==> s2.payments@[p].status == (
        if refund is Ok {
            PaymentStatus::Refunded
        } else {
            PaymentStatus::Failed
        }),
        step2 == failed(CheckoutError::Processor(failure)),
{
    lemma_first(s0.payments@, Lookup::Id(payment_id), s0.payments@.len() as int);
    if refund_target(s0, Some(payment_id)) is Some {
        let p = refund_target(s0, Some(payment_id))->0;
        assert(s2.payments@[p].status != PaymentStatus::Completed);
    }
}


/// A failed capture ends refunded. Let a charge be authorized and recorded
/// on an order in a valid store, let its completion fail, and let the refund
/// be answered either way. Then the refund was asked for that charge, and
/// the checkout ends with the error of the completion. Orders and ledger are
/// as they were. The payments are the ones that were there, unchanged, and
/// the one that was recorded for the charge, which is refunded, or failed
/// where the refund did not go through. The order has no completed payment.
pub proof fn law_failed_capture_ends_refunded(
    s0: Store,
    s1: Store,
    s2: Store,
    s3: Store,
    order_id: u128,
    user_id: u128,
    amount: i64,
    provider: String,
    auth: ChargeAuthResult,
    failure: PaymentProcessorError,
    refund: Result<ChargeAuthResult, PaymentProcessorError>,
    config: Config,
    now: i64,
    step1: Step,
    step2: Step,
    step3: Step,
)
    requires
        s0.wf(),
        !record_refusal(s0, order_id),
        advanced(
            s0,
            s1,
            Stage::AwaitingAuth { order_id, user_id, amount, provider },
            Reply::Authorized(Ok(auth)),
            config,
            now,
            step1,
        ),
        advanced(s1, s2, step1.stage, Reply::Charged(Err(failure)), config, now, step2),
        advanced(s2, s3, step2.stage, Reply::Refunded(refund), config, now, step3),
    ensures
        step1.action == Action::Ask(Command::CompleteAuthedCharge { auth_token: auth.id }),
        step2.action == Action::Ask(Command::Refund { auth_token: auth.id }),
        step3 == failed(CheckoutError::Processor(failure)),
        s3.orders == s0.orders,
        s3.ledger == s0.ledger,
        s3.payments@.len() == s0.payments@.len() + 1,
        s3.payments@.drop_last() == s0.payments@,
        s3.payments@.last().order_id == order_id,
        s3.payments@.last().external_reference == auth.id,
        s3.payments@.last().status == (if refund is Ok {
            PaymentStatus::Refunded
        } else {
            PaymentStatus::Failed
        }),
        forall|i: int|
            0 <= i < s3.payments@.len() && (#[trigger] s3.payments@[i]).order_id == order_id
                ==> s3.payments@[i].status != PaymentStatus::Completed,
{
    let n = s0.payments@.len() as int;
    let q = Lookup::Id(s0.next_id);
    lemma_first(s1.payments@, q, s1.payments@.len() as int);
    assert(s1.payments@[n] == s1.payments@.last());
    assert(s1.payments@[n].answers(q));
    assert(first(s1.payments@, q) == Some(n)) by {
        let f = first(s1.payments@, q)->0;
        if f < n {
            assert(s1.payments@.drop_last()[f] == s1.payments@[f]);
            assert(s0.payments@[f].id < s0.next_id);
        }
    }
    assert(refund_target(s2, Some(s0.next_id)) == Some(n));
    assert(s3.payments@.drop_last() =~= s0.payments@) by {
        assert forall|i: int| 0 <= i < n implies s3.payments@.drop_last()[i] == s0.payments@[i] by {
            assert(s1.payments@.drop_last()[i] == s1.payments@[i]);
        }
    }
    assert forall|i: int|
        0 <= i < s3.payments@.len() && (#[trigger] s3.payments@[i]).order_id
            == order_id implies s3.payments@[i].status != PaymentStatus::Completed by {
        if i < n {
            assert(s3.payments@.drop_last()[i] == s3.payments@[i]);
            assert(!(s0.payments@[i].order_id == order_id && s0.payments@[i].is_active()));
        }
    }
}

/// A charge that cannot be recorded is refunded. Let a charge be authorized
/// where it cannot be recorded on the order, and let the refund be answered
/// either way. Then the refund was asked for that charge and for nothing
/// else, the store is as it was before, with no payment recorded, and the
/// checkout ends with `PersistenceError`.
pub proof fn law_unrecorded_charge_is_refunded(
    s0: Store,
    s1: Store,
    s2: Store,
    order_id: u128,
    user_id: u128,
    amount: i64,
    provider: String,
    auth: ChargeAuthResult,
    refund: Result<ChargeAuthResult, PaymentProcessorError>,
    config: Config,
    now: i64,
    step1: Step,
    step2: Step,
)
    requires
        record_refusal(s0, order_id),
        advanced(
            s0,
            s1,
            Stage::AwaitingAuth { order_id, user_id, amount, provider },
            Reply::Authorized(Ok(auth)),
            config,
            now,
            step1,
        ),
        advanced(s1, s2, step1.stage, Reply::Refunded(refund), config, now, step2),
    ensures
        step1.action == Action::Ask(Command::Refund { auth_token: auth.id }),
        s1 == s0,
        s2 == s0,
        step2 == failed(CheckoutError::Rule(BusinessError::PersistenceError)),
{
}

/// What is paid for is issued. Where the completion of a charge is booked,
/// the order is paid, the payment is completed, and for every item of the
/// order at least as many tickets as its quantity says are purchased for it
/// and in the wallet of the order's owner.
pub proof fn law_paid_for_is_issued(
    before: Store,
    after: Store,
    order_id: u128,
    payment_id: u128,
    auth_token: String,
    charge: ChargeResult,
    now: i64,
    step: Step,
)
    requires
        charged_step(before, after, order_id, payment_id, auth_token, Ok(charge), now, step),
        capture_refusal(before, order_id, payment_id, now) is None,
    ensures
        ({
            let p = first(before.payments@, Lookup::Id(payment_id))->0;
            let o = first(before.orders@, Lookup::Id(order_id))->0;
            let w = first(before.wallets@, Lookup::DefaultOf(before.orders@[o].user_id))->0;
            let items = before.orders@[o].items@;
            &&& after.payments@[p].status == PaymentStatus::Completed
            &&& views(after.orders@)[o].status == OrderStatus::Paid
            &&& views(after.orders@)[o].items == items
            &&& forall|j: int|
                0 <= j < items.len() ==> count(
                    after.ledger@,
                    Selector::PurchasedFor {
                        order_item_id: (#[trigger] items[j]).id,
                        wallet_id: before.wallets@[w].id,
                    },
                ) >= items[j].quantity
        }),
{
    let p = first(before.payments@, Lookup::Id(payment_id))->0;
    let o = first(before.orders@, Lookup::Id(order_id))->0;
    let w = first(before.wallets@, Lookup::DefaultOf(before.orders@[o].user_id))->0;
    let items = before.orders@[o].items@;
    let ids = item_ids(items);
    lemma_first(before.payments@, Lookup::Id(payment_id), before.payments@.len() as int);
    lemma_first(before.orders@, Lookup::Id(order_id), before.orders@.len() as int);
    assert forall|j: int| 0 <= j < items.len() implies count(
        after.ledger@,
        Selector::PurchasedFor {
            order_item_id: (#[trigger] items[j]).id,
            wallet_id: before.wallets@[w].id,
        },
    ) >= items[j].quantity by {
        assert(ids[j] == items[j].id);
        lemma_sold_are_purchased(
            before.ledger@,
            ids,
            before.wallets@[w].id,
            items[j].id,
            now,
            before.ledger@.len() as int,
        );
    }
}

} // verus!
