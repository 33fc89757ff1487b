use box_office::assets::Asset;
use box_office::cart::{
    add, checkout, checkout_external, checkout_payment_processor, show, AddToCartRequest,
    AddToCartRequestItem, CheckoutCartRequest, PaymentRequest,
};
use box_office::checkout::{
    advance, perform, perform_as, Action, CheckoutError, CheckoutResponse, Command, Reply, Stage,
    Step, User,
};
use box_office::errors::BusinessError;
use box_office::inventory::{Selector, TicketInstanceStatus};
use box_office::orders::{FeeSchedule, FeeScheduleRange, Allotment, OrderStatus, TicketType};
use box_office::payment_processor::{
    AuthThenCompletePaymentBehavior, ChargeAuthResult, ChargeResult, PaymentProcessor,
    PaymentProcessorBehavior, PaymentProcessorError, RepeatChargeToken,
};
use box_office::payments::{PaymentMethod, PaymentStatus};
use box_office::service_locator::{Config, ProcessorSettings, ServiceLocator};
use box_office::settlement::{plan_deliveries, Delivery};
use box_office::store::{Catalog, Store};
use box_office::wallets::Wallet;
use std::cell::RefCell;
use std::rc::Rc;
use uuid::Uuid;

const TYPE_A: u128 = 7_001;
const TYPE_B: u128 = 7_002;
const ASSET_A: u128 = 8_001;
const ASSET_B: u128 = 8_002;
const ORG_WALLET: u128 = 9_000;
const BUYER: u128 = 11;
const BUYER_WALLET: u128 = 50_011;
const NOW: i64 = 1_700_000_000;

fn config() -> Config {
    Config {
        primary_currency: "usd".to_string(),
        stripe_secret_key: "sk_test".to_string(),
        charge_description: "Tickets".to_string(),
        token_description: "Stored card".to_string(),
    }
}

fn store() -> Store {
    let mut store = Store::new(Catalog {
        ticket_types: vec![
            TicketType { id: TYPE_A, price_in_cents: 150, redeem_date: None },
            TicketType { id: TYPE_B, price_in_cents: 2_500, redeem_date: None },
        ],
        allotments: vec![Allotment { id: 43, ticket_type_id: TYPE_A, redemption_code: "x".to_string() }],
        fee_schedule: FeeSchedule { ranges: vec![FeeScheduleRange { min_price: 0, fee_in_cents: 10 }] },
        hold_window: 900,
    });
    store.ledger.mint(100_010, TYPE_A, ASSET_A, 10, ORG_WALLET).unwrap();
    store.ledger.set_aside(TYPE_A, 1, 43).unwrap();
    store.wallets.push(Wallet {
        id: ORG_WALLET,
        owner_id: 1,
        is_default: true,
        secret_key: "org-secret".to_string(),
        public_key: "org-public".to_string(),
    });
    store.wallets.push(Wallet {
        id: BUYER_WALLET,
        owner_id: BUYER,
        is_default: true,
        secret_key: "buyer-secret".to_string(),
        public_key: "buyer-public".to_string(),
    });
    store.assets.push(Asset { id: ASSET_A, blockchain_asset_id: Some("asset.a".to_string()) });
    store.assets.push(Asset { id: ASSET_B, blockchain_asset_id: Some("asset.b".to_string()) });
    for i in 0..10u64 {
        store.ledger.mint(100_000 + i as u128, TYPE_A, ASSET_A, i, ORG_WALLET).unwrap();
    }
    for i in 0..4u64 {
        store.ledger.mint(200_000 + i as u128, TYPE_B, ASSET_B, 40 + i, ORG_WALLET).unwrap();
    }
    store
}

fn buyer() -> User {
    User { id: BUYER, can_make_external_payments: false }
}

fn fill_cart(store: &mut Store, of_a: i64, of_b: i64) -> u128 {
    let mut items = vec![];
    if of_a > 0 {
        items.push(AddToCartRequestItem { redemption_key: None, ticket_type_id: TYPE_A, quantity: of_a });
    }
    if of_b > 0 {
        items.push(AddToCartRequestItem { redemption_key: None, ticket_type_id: TYPE_B, quantity: of_b });
    }
    add(store, BUYER, &AddToCartRequest { items }, NOW).unwrap().cart_id
}

fn card(save_payment_method: bool, set_default: bool) -> CheckoutCartRequest {
    CheckoutCartRequest {
        amount: 2_980,
        method: PaymentRequest::Card {
            token: "tok_visa".to_string(),
            provider: "stripe".to_string(),
            save_payment_method,
            set_default,
        },
    }
}

fn refused(e: BusinessError) -> Step {
    Step { stage: Stage::Finished(Err(CheckoutError::Rule(e))), action: Action::Nothing }
}

fn auth_ok() -> Reply {
    Reply::Authorized(Ok(ChargeAuthResult { id: "ch_1".to_string(), raw: "{\"auth\":1}".to_string() }))
}

fn gone_wrong(what: &str) -> PaymentProcessorError {
    PaymentProcessorError { description: what.to_string(), cause: None }
}

fn begin(store: &mut Store, request: &CheckoutCartRequest) -> Step {
    let config = config();
    checkout(store, &buyer(), request, &config, &ServiceLocator::new(&config), NOW)
}

#[test]
fn a_card_payment_goes_through_step_by_step() {
    let mut store = store();
    let cart_id = fill_cart(&mut store, 2, 1);
    let config = config();
    let step = begin(&mut store, &card(false, false));
    assert_eq!(
        step.stage,
        Stage::AwaitingAuth { order_id: cart_id, user_id: BUYER, amount: 2_980, provider: "stripe".to_string() }
    );
    assert_eq!(
        step.action,
        Action::Ask(Command::Auth {
            token: "tok_visa".to_string(),
            amount: 2_980,
            currency: "usd".to_string(),
            description: "Tickets".to_string(),
            metadata: vec![("order_id".to_string(), Uuid::from_u128(cart_id).to_string())],
        })
    );
    assert!(store.payments.is_empty());

    let step = advance(&mut store, step.stage, auth_ok(), &config, NOW);
    let payment_id = store.payments[0].id;
    assert_eq!(
        step.stage,
        Stage::AwaitingCapture { order_id: cart_id, payment_id, auth_token: "ch_1".to_string() }
    );
    assert_eq!(step.action, Action::Ask(Command::CompleteAuthedCharge { auth_token: "ch_1".to_string() }));
    assert_eq!(store.payments.len(), 1);
    assert_eq!(store.payments[0].status, PaymentStatus::Authorized);
    assert_eq!(store.payments[0].order_id, cart_id);
    assert_eq!(store.payments[0].created_by, BUYER);
    assert_eq!(store.payments[0].amount, 2_980);
    assert_eq!(store.payments[0].provider, "stripe");
    assert_eq!(store.payments[0].external_reference, "ch_1");
    assert_eq!(store.payments[0].raw_data, vec!["{\"auth\":1}".to_string()]);
    assert_eq!(store.orders[0].status, OrderStatus::Draft);

    let charged = Reply::Charged(Ok(ChargeResult { id: "ch_1".to_string(), raw: "{\"paid\":1}".to_string() }));
    let step = advance(&mut store, step.stage, charged, &config, NOW);
    assert_eq!(store.payments[0].status, PaymentStatus::Completed);
    assert_eq!(store.payments[0].raw_data.len(), 2);
    assert_eq!(store.orders[0].status, OrderStatus::Paid);
    assert!(show(&store, BUYER).is_none());
    let owned = store.ledger.select(&Selector::InWallet { wallet_id: BUYER_WALLET });
    assert_eq!(owned.iter().map(|t| t.id).collect::<Vec<u128>>(), vec![100_000, 100_001, 200_000]);
    assert!(owned.iter().all(|t| t.reserved_until.is_none() && t.order_item_id.is_some()));
    match &step.action {
        Action::Transfer(t) => {
            assert_eq!(t.sender_secret_key, "org-secret");
            assert_eq!(t.sender_public_key, "org-public");
            assert_eq!(t.asset, "asset.a");
            assert_eq!(t.token_ids, vec![0, 1]);
            assert_eq!(t.recipient_public_key, "buyer-public");
        }
        other => panic!("expected a transfer, got {:?}", other),
    }

    let step = advance(&mut store, step.stage, Reply::Transferred(Ok(())), &config, NOW);
    match &step.action {
        Action::Transfer(t) => {
            assert_eq!(t.asset, "asset.b");
            assert_eq!(t.token_ids, vec![40]);
        }
        other => panic!("expected a transfer, got {:?}", other),
    }
    let step = advance(&mut store, step.stage, Reply::Transferred(Ok(())), &config, NOW);
    assert_eq!(step.action, Action::Nothing);
    assert_eq!(step.stage, Stage::Finished(Ok(CheckoutResponse { payment_id })));

    let step = advance(&mut store, step.stage, Reply::Transferred(Ok(())), &config, NOW);
    assert_eq!(step.stage, Stage::Finished(Err(CheckoutError::UnexpectedReply)));
}

#[test]
fn a_failed_capture_is_refunded_and_leaves_the_order_a_draft() {
    let mut store = store();
    let cart_id = fill_cart(&mut store, 2, 1);
    let config = config();
    let step = begin(&mut store, &card(false, false));
    let step = advance(&mut store, step.stage, auth_ok(), &config, NOW);
    let items_before = store.orders[0].items.clone();
    let ledger_before = store.ledger.tickets().clone();

    let step = advance(&mut store, step.stage, Reply::Charged(Err(gone_wrong("declined"))), &config, NOW);
    assert_eq!(step.action, Action::Ask(Command::Refund { auth_token: "ch_1".to_string() }));
    assert_eq!(store.orders[0].status, OrderStatus::Draft);
    assert_eq!(store.payments[0].status, PaymentStatus::Authorized);

    let refund = Reply::Refunded(Ok(ChargeAuthResult { id: "re_1".to_string(), raw: "{\"refund\":1}".to_string() }));
    let step = advance(&mut store, step.stage, refund, &config, NOW);
    assert_eq!(step.action, Action::Nothing);
    assert_eq!(step.stage, Stage::Finished(Err(CheckoutError::Processor(gone_wrong("declined")))));
    assert_eq!(store.orders[0].id, cart_id);
    assert_eq!(store.orders[0].status, OrderStatus::Draft);
    assert_eq!(store.orders[0].items, items_before);
    assert_eq!(store.ledger.tickets(), &ledger_before);
    assert_eq!(store.payments[0].status, PaymentStatus::Refunded);
    assert_eq!(store.payments[0].raw_data.last().unwrap(), "{\"refund\":1}");
    assert!(show(&store, BUYER).is_some());
}

#[test]
fn a_refund_that_fails_leaves_the_payment_failed() {
    let mut store = store();
    fill_cart(&mut store, 1, 0);
    let config = config();
    let step = begin(&mut store, &card(false, false));
    let step = advance(&mut store, step.stage, auth_ok(), &config, NOW);
    let step = advance(&mut store, step.stage, Reply::Charged(Err(gone_wrong("declined"))), &config, NOW);
    let step = advance(&mut store, step.stage, Reply::Refunded(Err(gone_wrong("no refund"))), &config, NOW);
    assert_eq!(step.stage, Stage::Finished(Err(CheckoutError::Processor(gone_wrong("declined")))));
    assert_eq!(step.action, Action::Nothing);
    assert_eq!(store.payments[0].status, PaymentStatus::Failed);
    assert_eq!(store.payments[0].raw_data.last().unwrap(), "no refund");
    assert_eq!(store.orders[0].status, OrderStatus::Draft);
}

#[test]
fn a_charge_that_cannot_be_recorded_ends_with_the_persistence_error_whatever_the_refund() {
    let mut store = store();
    fill_cart(&mut store, 1, 0);
    let config = config();
    let first = begin(&mut store, &card(false, false));
    let second = begin(&mut store, &card(false, false));
    advance(&mut store, first.stage, auth_ok(), &config, NOW);
    let other = Reply::Authorized(Ok(ChargeAuthResult { id: "ch_2".to_string(), raw: "{}".to_string() }));
    let second = advance(&mut store, second.stage, other, &config, NOW);
    assert_eq!(second.action, Action::Ask(Command::Refund { auth_token: "ch_2".to_string() }));
    let second =
        advance(&mut store, second.stage, Reply::Refunded(Err(gone_wrong("no refund"))), &config, NOW);
    assert_eq!(
        second.stage,
        Stage::Finished(Err(CheckoutError::Rule(BusinessError::PersistenceError)))
    );
    assert_eq!(store.payments.len(), 1);
    assert_eq!(store.payments[0].status, PaymentStatus::Authorized);
    assert_eq!(store.payments[0].external_reference, "ch_1");
}

#[test]
fn a_charge_that_cannot_be_recorded_is_refunded_at_once() {
    let mut store = store();
    fill_cart(&mut store, 1, 0);
    let config = config();
    let first = begin(&mut store, &card(false, false));
    let second = begin(&mut store, &card(false, false));
    let first = advance(&mut store, first.stage, auth_ok(), &config, NOW);
    assert!(matches!(first.stage, Stage::AwaitingCapture { .. }));
    let other = Reply::Authorized(Ok(ChargeAuthResult { id: "ch_2".to_string(), raw: "{}".to_string() }));
    let second = advance(&mut store, second.stage, other, &config, NOW);
    assert_eq!(second.action, Action::Ask(Command::Refund { auth_token: "ch_2".to_string() }));
    assert_eq!(store.payments.len(), 1);
    let refund = Reply::Refunded(Ok(ChargeAuthResult { id: "re".to_string(), raw: "{}".to_string() }));
    let second = advance(&mut store, second.stage, refund, &config, NOW);
    assert_eq!(
        second.stage,
        Stage::Finished(Err(CheckoutError::Rule(BusinessError::PersistenceError)))
    );
    assert_eq!(store.payments[0].status, PaymentStatus::Authorized);
}

#[test]
fn a_failed_authorization_changes_nothing() {
    let mut store = store();
    fill_cart(&mut store, 1, 0);
    let config = config();
    let step = begin(&mut store, &card(false, false));
    let step = advance(&mut store, step.stage, Reply::Authorized(Err(gone_wrong("no funds"))), &config, NOW);
    assert_eq!(step.stage, Stage::Finished(Err(CheckoutError::Processor(gone_wrong("no funds")))));
    assert_eq!(step.action, Action::Nothing);
    assert!(store.payments.is_empty());
    assert_eq!(store.orders[0].status, OrderStatus::Draft);
}

#[test]
fn a_reply_that_does_not_answer_ends_the_checkout() {
    let mut store = store();
    fill_cart(&mut store, 1, 0);
    let config = config();
    let step = begin(&mut store, &card(false, false));
    let step = advance(&mut store, step.stage, Reply::Transferred(Ok(())), &config, NOW);
    assert_eq!(step.stage, Stage::Finished(Err(CheckoutError::UnexpectedReply)));
    assert!(store.payments.is_empty());
}

#[test]
fn an_asset_without_identity_stops_the_checkout_before_payment() {
    let mut store = store();
    fill_cart(&mut store, 1, 1);
    store.assets[1].blockchain_asset_id = None;
    let step = begin(&mut store, &card(false, false));
    assert_eq!(step, refused(BusinessError::AssetNotProvisioned));
    assert!(store.payments.is_empty());
    assert_eq!(store.orders[0].status, OrderStatus::Draft);
    assert!(BusinessError::AssetNotProvisioned.is_server_fault());
}

#[test]
fn an_asset_that_loses_its_identity_stops_the_settlement_but_not_the_payment() {
    let mut store = store();
    fill_cart(&mut store, 1, 1);
    let config = config();
    let step = begin(&mut store, &card(false, false));
    let step = advance(&mut store, step.stage, auth_ok(), &config, NOW);
    let charged = Reply::Charged(Ok(ChargeResult { id: "ch_1".to_string(), raw: "{}".to_string() }));
    let step = advance(&mut store, step.stage, charged, &config, NOW);
    store.assets[1].blockchain_asset_id = None;
    let step = advance(&mut store, step.stage, Reply::Transferred(Ok(())), &config, NOW);
    assert_eq!(step, refused(BusinessError::AssetNotProvisioned));
    assert_eq!(store.payments[0].status, PaymentStatus::Completed);
    assert_eq!(store.orders[0].status, OrderStatus::Paid);
}

#[test]
fn a_failed_settlement_is_reported_and_the_payment_stands() {
    let mut store = store();
    fill_cart(&mut store, 1, 1);
    let config = config();
    let step = begin(&mut store, &card(false, false));
    let step = advance(&mut store, step.stage, auth_ok(), &config, NOW);
    let charged = Reply::Charged(Ok(ChargeResult { id: "ch_1".to_string(), raw: "{}".to_string() }));
    let step = advance(&mut store, step.stage, charged, &config, NOW);
    let step = advance(&mut store, step.stage, Reply::Transferred(Err("ledger down".to_string())), &config, NOW);
    assert_eq!(step.stage, Stage::Finished(Err(CheckoutError::Settlement("ledger down".to_string()))));
    assert_eq!(step.action, Action::Nothing);
    assert_eq!(store.payments[0].status, PaymentStatus::Completed);
    assert_eq!(store.orders[0].status, OrderStatus::Paid);
    assert_eq!(store.ledger.count(&Selector::InWallet { wallet_id: BUYER_WALLET }), 2);
}

#[test]
fn a_paid_order_cannot_be_checked_out_again() {
    let mut store = store();
    let cart_id = fill_cart(&mut store, 1, 0);
    let config = config();
    let locator = ServiceLocator::new(&config);
    let step = begin(&mut store, &card(false, false));
    let step = advance(&mut store, step.stage, auth_ok(), &config, NOW);
    let charged = Reply::Charged(Ok(ChargeResult { id: "ch_1".to_string(), raw: "{}".to_string() }));
    advance(&mut store, step.stage, charged, &config, NOW);
    assert_eq!(store.orders[0].status, OrderStatus::Paid);

    let request = card(false, false);
    let token = "tok_visa".to_string();
    let provider = "stripe".to_string();
    let again = checkout_payment_processor(
        &store, cart_id, Some(&token), &request, &buyer(), &provider, false, false, false, &config, &locator,
    );
    assert_eq!(again, refused(BusinessError::InvalidOrderStatus));
    let admin = User { id: 99, can_make_external_payments: true };
    let external = checkout_external(&mut store, cart_id, &"ref".to_string(), &request, &admin, NOW);
    assert_eq!(external, Err(BusinessError::InvalidOrderStatus));
    assert_eq!(begin(&mut store, &request), refused(BusinessError::InvalidOrderStatus));
    assert_eq!(store.payments.len(), 1);
}

#[test]
fn a_payment_through_a_provider_has_its_preconditions() {
    let mut store = store();
    let cart_id = fill_cart(&mut store, 1, 0);
    let config = config();
    let locator = ServiceLocator::new(&config);
    let request = card(false, false);
    let token = "tok_visa".to_string();
    let stripe = "stripe".to_string();
    let stranger = User { id: 12, can_make_external_payments: false };
    let start = |store: &Store, order_id: u128, token: Option<&String>, user: &User, provider: &String, stored: bool| {
        checkout_payment_processor(store, order_id, token, &request, user, provider, stored, false, false, &config, &locator)
    };
    assert_eq!(start(&store, 999, Some(&token), &buyer(), &stripe, false), refused(BusinessError::NoResults));
    assert_eq!(start(&store, cart_id, Some(&token), &stranger, &stripe, false), refused(BusinessError::NotOwner));
    assert_eq!(
        start(&store, cart_id, Some(&token), &buyer(), &"paypal".to_string(), false),
        refused(BusinessError::UnknownPaymentProvider)
    );
    assert_eq!(start(&store, cart_id, None, &buyer(), &stripe, false), refused(BusinessError::MissingToken));
    assert_eq!(start(&store, cart_id, None, &buyer(), &stripe, true), refused(BusinessError::NoStoredPaymentMethod));
    let by_default = CheckoutCartRequest { amount: 1, method: PaymentRequest::PaymentMethod { provider: None } };
    assert_eq!(begin(&mut store, &by_default), refused(BusinessError::NoDefaultPaymentMethod));
    assert_eq!(begin(&mut Store::new(Catalog {
        ticket_types: vec![],
        allotments: vec![],
        fee_schedule: FeeSchedule { ranges: vec![] },
        hold_window: 1,
    }), &request), refused(BusinessError::CartNotFound));
}

#[test]
fn a_saved_card_makes_a_stored_payment_method() {
    let mut store = store();
    let cart_id = fill_cart(&mut store, 1, 0);
    let config = config();
    let step = begin(&mut store, &card(true, true));
    assert_eq!(
        step.action,
        Action::Ask(Command::CreateTokenForRepeatCharges {
            token: "tok_visa".to_string(),
            description: "Stored card".to_string(),
        })
    );
    let reply = Reply::RepeatToken(Ok(RepeatChargeToken { token: "cus_1".to_string(), raw: "{\"c\":1}".to_string() }));
    let step = advance(&mut store, step.stage, reply, &config, NOW);
    assert_eq!(
        store.payment_methods,
        vec![PaymentMethod {
            id: 3,
            user_id: BUYER,
            name: "stripe".to_string(),
            is_default: true,
            provider: "cus_1".to_string(),
            provider_data: "{\"c\":1}".to_string(),
        }]
    );
    match &step.action {
        Action::Ask(Command::Auth { token, amount, .. }) => {
            assert_eq!(token, "cus_1");
            assert_eq!(*amount, 2_980);
        }
        other => panic!("expected an authorization, got {:?}", other),
    }
    assert_eq!(
        step.stage,
        Stage::AwaitingAuth { order_id: cart_id, user_id: BUYER, amount: 2_980, provider: "stripe".to_string() }
    );

    // the stored method is charged by default, and updated when a card is saved again
    let by_default = CheckoutCartRequest { amount: 5, method: PaymentRequest::PaymentMethod { provider: None } };
    let step = begin(&mut store, &by_default);
    match &step.action {
        Action::Ask(Command::Auth { token, amount, .. }) => {
            assert_eq!(token, "cus_1");
            assert_eq!(*amount, 5);
        }
        other => panic!("expected an authorization, got {:?}", other),
    }
    let step = begin(&mut store, &card(true, false));
    assert_eq!(
        step.action,
        Action::Ask(Command::UpdateRepeatToken {
            repeat_token: "cus_1".to_string(),
            token: "tok_visa".to_string(),
            description: "Stored card".to_string(),
        })
    );
    let reply = Reply::RepeatToken(Ok(RepeatChargeToken { token: "cus_2".to_string(), raw: "{\"c\":2}".to_string() }));
    let step = advance(&mut store, step.stage, reply, &config, NOW);
    assert_eq!(store.payment_methods.len(), 1);
    assert_eq!(store.payment_methods[0].provider, "cus_1");
    assert_eq!(store.payment_methods[0].provider_data, "{\"c\":2}");
    assert!(matches!(step.action, Action::Ask(Command::Auth { .. })));

    let step = begin(&mut store, &card(true, false));
    let step = advance(&mut store, step.stage, Reply::RepeatToken(Err(gone_wrong("no"))), &config, NOW);
    assert_eq!(step.stage, Stage::Finished(Err(CheckoutError::Processor(gone_wrong("no")))));
}

#[test]
fn an_external_payment_pays_at_once() {
    let mut store = store();
    let cart_id = fill_cart(&mut store, 2, 0);
    let config = config();
    let locator = ServiceLocator::new(&config);
    let request = CheckoutCartRequest {
        amount: 320,
        method: PaymentRequest::External { reference: "cash-17".to_string() },
    };
    assert_eq!(begin(&mut store, &request), refused(BusinessError::Unauthorized));
    assert!(store.payments.is_empty());

    let clerk = User { id: BUYER, can_make_external_payments: true };
    let step = checkout(&mut store, &clerk, &request, &config, &locator, NOW);
    assert_eq!(store.payments.len(), 1);
    assert_eq!(store.payments[0].status, PaymentStatus::Completed);
    assert_eq!(store.payments[0].provider, "External");
    assert_eq!(store.payments[0].external_reference, "cash-17");
    assert_eq!(store.payments[0].amount, 320);
    assert_eq!(store.payments[0].order_id, cart_id);
    assert!(store.payments[0].raw_data.is_empty());
    assert_eq!(store.orders[0].status, OrderStatus::Paid);
    assert_eq!(
        store.ledger.count(&Selector::OfType { ticket_type_id: TYPE_A, status: TicketInstanceStatus::Purchased }),
        2
    );
    match &step.action {
        Action::Transfer(t) => {
            assert_eq!(t.token_ids, vec![0, 1]);
            assert_eq!(t.recipient_public_key, "buyer-public");
        }
        other => panic!("expected a transfer, got {:?}", other),
    }
    let step = advance(&mut store, step.stage, Reply::Transferred(Ok(())), &config, NOW);
    assert_eq!(step.stage, Stage::Finished(Ok(CheckoutResponse { payment_id: store.payments[0].id })));
}

#[test]
fn an_external_payment_has_its_preconditions() {
    let mut store = store();
    let cart_id = fill_cart(&mut store, 1, 0);
    let request = CheckoutCartRequest {
        amount: 160,
        method: PaymentRequest::External { reference: "r".to_string() },
    };
    let clerk = User { id: 99, can_make_external_payments: true };
    let reference = "r".to_string();
    assert_eq!(checkout_external(&mut store, cart_id, &reference, &request, &buyer(), NOW), Err(BusinessError::Unauthorized));
    assert_eq!(checkout_external(&mut store, 999, &reference, &request, &clerk, NOW), Err(BusinessError::NoResults));
    store.wallets.remove(1);
    assert_eq!(checkout_external(&mut store, cart_id, &reference, &request, &clerk, NOW), Err(BusinessError::NoResults));
    assert!(store.payments.is_empty());
}

#[test]
fn the_plan_has_one_delivery_for_each_asset() {
    let mut store = store();
    fill_cart(&mut store, 2, 2);
    add(
        &mut store,
        BUYER,
        &AddToCartRequest {
            items: vec![AddToCartRequestItem { redemption_key: Some("x".to_string()), ticket_type_id: TYPE_A, quantity: 1 }],
        },
        NOW,
    )
    .unwrap();
    let plan = plan_deliveries(&store.ledger, &show(&store, BUYER).unwrap().items);
    assert_eq!(
        plan,
        vec![
            Delivery { asset_id: ASSET_A, wallet_id: ORG_WALLET, token_ids: vec![0, 1, 10] },
            Delivery { asset_id: ASSET_B, wallet_id: ORG_WALLET, token_ids: vec![40, 41] },
        ]
    );
}

struct Calls(Rc<RefCell<Vec<String>>>);

struct FakeBehavior(Rc<RefCell<Vec<String>>>);

struct FakeProcessor {
    calls: Rc<RefCell<Vec<String>>>,
    redirects: bool,
}

impl AuthThenCompletePaymentBehavior for FakeBehavior {
    fn name(&self) -> String {
        "fake".to_string()
    }

    fn create_token_for_repeat_charges(
        &self,
        token: &str,
        description: &str,
    ) -> Result<RepeatChargeToken, PaymentProcessorError> {
        self.0.borrow_mut().push(format!("create {} {}", token, description));
        Ok(RepeatChargeToken { token: "cus_9".to_string(), raw: "{}".to_string() })
    }

    fn update_repeat_token(
        &self,
        repeat_token: &str,
        token: &str,
        description: &str,
    ) -> Result<RepeatChargeToken, PaymentProcessorError> {
        self.0.borrow_mut().push(format!("update {} {} {}", repeat_token, token, description));
        Ok(RepeatChargeToken { token: repeat_token.to_string(), raw: "{}".to_string() })
    }

    fn auth(
        &self,
        token: &str,
        amount: i64,
        currency: &str,
        description: &str,
        metadata: Vec<(String, String)>,
    ) -> Result<ChargeAuthResult, PaymentProcessorError> {
        self.0
            .borrow_mut()
            .push(format!("auth {} {} {} {} {}", token, amount, currency, description, metadata.len()));
        Ok(ChargeAuthResult { id: "ch_9".to_string(), raw: "{}".to_string() })
    }

    fn complete_authed_charge(&self, auth_token: &str) -> Result<ChargeResult, PaymentProcessorError> {
        self.0.borrow_mut().push(format!("complete {}", auth_token));
        Err(PaymentProcessorError { description: "declined".to_string(), cause: None })
    }
}

impl PaymentProcessor for FakeProcessor {
    fn behavior(&self) -> PaymentProcessorBehavior {
        if self.redirects {
            PaymentProcessorBehavior::RedirectToPaymentPage
        } else {
            PaymentProcessorBehavior::AuthThenComplete(Box::new(FakeBehavior(self.calls.clone())))
        }
    }

    fn refund(&self, auth_token: &str) -> Result<ChargeAuthResult, PaymentProcessorError> {
        self.calls.borrow_mut().push(format!("refund {}", auth_token));
        Ok(ChargeAuthResult { id: "re_9".to_string(), raw: "{}".to_string() })
    }

    fn partial_refund(&self, auth_token: &str, amount: u32) -> Result<ChargeAuthResult, PaymentProcessorError> {
        self.calls.borrow_mut().push(format!("partial {} {}", auth_token, amount));
        Ok(ChargeAuthResult { id: "re_9".to_string(), raw: "{}".to_string() })
    }
}

#[test]
fn a_processor_performs_what_the_checkout_asks() {
    let calls = Calls(Rc::new(RefCell::new(vec![])));
    let processor = FakeProcessor { calls: calls.0.clone(), redirects: false };
    let mut store = store();
    fill_cart(&mut store, 1, 0);
    let config = config();
    let mut step = begin(&mut store, &card(true, false));
    loop {
        let reply = match step.action {
            Action::Ask(command) => perform(&processor, command),
            Action::Transfer(_) => Reply::Transferred(Ok(())),
            Action::Nothing => break,
        };
        step = advance(&mut store, step.stage, reply, &config, NOW);
    }
    assert_eq!(
        *calls.0.borrow(),
        vec![
            "create tok_visa Stored card".to_string(),
            "auth cus_9 2980 usd Tickets 1".to_string(),
            "complete ch_9".to_string(),
            "refund ch_9".to_string(),
        ]
    );
    assert!(matches!(step.stage, Stage::Finished(Err(CheckoutError::Processor(_)))));
    assert_eq!(store.orders[0].status, OrderStatus::Draft);
    assert_eq!(store.payments[0].status, PaymentStatus::Refunded);
}

#[test]
fn a_processor_that_redirects_cannot_authorize() {
    let calls = Calls(Rc::new(RefCell::new(vec![])));
    let processor = FakeProcessor { calls: calls.0.clone(), redirects: true };
    let reply = perform(&processor, Command::CompleteAuthedCharge { auth_token: "ch".to_string() });
    assert!(matches!(reply, Reply::Charged(Err(_))));
    let reply = perform(
        &processor,
        Command::Auth {
            token: "t".to_string(),
            amount: 1,
            currency: "usd".to_string(),
            description: "d".to_string(),
            metadata: vec![],
        },
    );
    assert!(matches!(reply, Reply::Authorized(Err(_))));
    let reply = perform(&processor, Command::Refund { auth_token: "ch".to_string() });
    assert!(matches!(reply, Reply::Refunded(Ok(_))));
    assert_eq!(*calls.0.borrow(), vec!["refund ch".to_string()]);

    let redirects = PaymentProcessorError {
        description: "the provider redirects to a payment page".to_string(),
        cause: None,
    };
    let reply = perform_as(
        &processor,
        PaymentProcessorBehavior::RedirectToPaymentPage,
        Command::CompleteAuthedCharge { auth_token: "ch".to_string() },
    );
    assert_eq!(reply, Reply::Charged(Err(redirects.clone())));
    let reply = perform_as(
        &processor,
        PaymentProcessorBehavior::RedirectToPaymentPage,
        Command::CreateTokenForRepeatCharges { token: "t".to_string(), description: "d".to_string() },
    );
    assert_eq!(reply, Reply::RepeatToken(Err(redirects.clone())));
    let reply = perform_as(
        &processor,
        PaymentProcessorBehavior::RedirectToPaymentPage,
        Command::UpdateRepeatToken {
            repeat_token: "r".to_string(),
            token: "t".to_string(),
            description: "d".to_string(),
        },
    );
    assert_eq!(reply, Reply::RepeatToken(Err(redirects.clone())));
    let reply = perform_as(
        &processor,
        PaymentProcessorBehavior::RedirectToPaymentPage,
        Command::Auth {
            token: "t".to_string(),
            amount: 1,
            currency: "usd".to_string(),
            description: "d".to_string(),
            metadata: vec![],
        },
    );
    assert_eq!(reply, Reply::Authorized(Err(redirects)));
    let reply = perform_as(
        &processor,
        PaymentProcessorBehavior::RedirectToPaymentPage,
        Command::Refund { auth_token: "ch2".to_string() },
    );
    assert!(matches!(reply, Reply::Refunded(Ok(_))));
    assert_eq!(*calls.0.borrow(), vec!["refund ch".to_string(), "refund ch2".to_string()]);
}

#[test]
fn the_locator_knows_stripe_only() {
    let config = config();
    let locator = ServiceLocator::new(&config);
    assert_eq!(
        locator.create_payment_processor(&"stripe".to_string()),
        Ok(ProcessorSettings::Stripe { secret_key: "sk_test".to_string() })
    );
    assert_eq!(
        locator.create_payment_processor(&"Stripe".to_string()),
        Err(BusinessError::UnknownPaymentProvider)
    );
    assert_eq!(
        locator.create_payment_processor(&"".to_string()),
        Err(BusinessError::UnknownPaymentProvider)
    );
}

#[test]
fn failures_are_answered_by_their_kind() {
    assert_eq!(CheckoutError::Rule(BusinessError::NotOwner).status_code(), 403);
    assert_eq!(CheckoutError::Rule(BusinessError::AssetNotProvisioned).status_code(), 500);
    assert_eq!(CheckoutError::Processor(gone_wrong("declined")).status_code(), 422);
    assert_eq!(CheckoutError::Processor(gone_wrong("declined")).message(), "declined");
    assert_eq!(CheckoutError::Settlement("down".to_string()).status_code(), 500);
    assert_eq!(CheckoutError::Settlement("down".to_string()).message(), "down");
    assert_eq!(CheckoutError::UnexpectedReply.status_code(), 500);
    assert_eq!(
        CheckoutError::Rule(BusinessError::MissingToken).message(),
        "Could not complete this cart because no token provided"
    );
}

#[test]
fn a_capture_that_cannot_be_booked_is_refunded() {
    let config = config();
    // the cart was emptied while the provider was asked
    let mut store = store();
    fill_cart(&mut store, 1, 0);
    let step = begin(&mut store, &card(false, false));
    let step = advance(&mut store, step.stage, auth_ok(), &config, NOW);
    let item_id = store.orders[0].items[0].id;
    box_office::cart::remove(
        &mut store,
        BUYER,
        &box_office::cart::RemoveCartRequest { cart_item_id: item_id, quantity: None },
    )
    .unwrap();
    let charged = Reply::Charged(Ok(ChargeResult { id: "ch_1".to_string(), raw: "{}".to_string() }));
    let step = advance(&mut store, step.stage, charged, &config, NOW);
    assert_eq!(step.action, Action::Ask(Command::Refund { auth_token: "ch_1".to_string() }));
    let refund = Reply::Refunded(Ok(ChargeAuthResult { id: "re".to_string(), raw: "{}".to_string() }));
    let step = advance(&mut store, step.stage, refund, &config, NOW);
    assert_eq!(step.stage, Stage::Finished(Err(CheckoutError::Rule(BusinessError::InvalidOrderStatus))));
    assert_eq!(store.payments[0].status, PaymentStatus::Refunded);

    // the payment was settled otherwise while the provider was asked
    let mut store = box_office::store::Store::clone(&self::store());
    fill_cart(&mut store, 1, 0);
    let step = begin(&mut store, &card(false, false));
    let step = advance(&mut store, step.stage, auth_ok(), &config, NOW);
    store.payments[0].status = PaymentStatus::Failed;
    let charged = Reply::Charged(Ok(ChargeResult { id: "ch_1".to_string(), raw: "{}".to_string() }));
    let step = advance(&mut store, step.stage, charged, &config, NOW);
    assert_eq!(step.action, Action::Ask(Command::Refund { auth_token: "ch_1".to_string() }));
    let refund = Reply::Refunded(Ok(ChargeAuthResult { id: "re".to_string(), raw: "{}".to_string() }));
    let step = advance(&mut store, step.stage, refund, &config, NOW);
    assert_eq!(step.stage, Stage::Finished(Err(CheckoutError::Rule(BusinessError::InvalidPaymentStatus))));
    assert_eq!(store.payments[0].status, PaymentStatus::Failed);
    assert_eq!(store.orders[0].status, OrderStatus::Draft);

    // the buyer's wallet is gone
    let mut store = self::store();
    fill_cart(&mut store, 1, 0);
    let step = begin(&mut store, &card(false, false));
    let step = advance(&mut store, step.stage, auth_ok(), &config, NOW);
    store.wallets.remove(1);
    let charged = Reply::Charged(Ok(ChargeResult { id: "ch_1".to_string(), raw: "{}".to_string() }));
    let step = advance(&mut store, step.stage, charged, &config, NOW);
    assert_eq!(
        step.stage,
        Stage::AwaitingRefund {
            payment_id: Some(store.payments[0].id),
            cause: CheckoutError::Rule(BusinessError::NoResults),
        }
    );
}

#[test]
fn a_cart_whose_holds_ran_out_cannot_be_paid() {
    let config = config();
    let locator = ServiceLocator::new(&config);
    // at the start of the checkout
    let mut store = store();
    fill_cart(&mut store, 2, 0);
    let late = checkout(&mut store, &buyer(), &card(false, false), &config, &locator, NOW + 901);
    assert_eq!(late, refused(BusinessError::InsufficientInventory));
    let in_time = checkout(&mut store, &buyer(), &card(false, false), &config, &locator, NOW + 900);
    assert!(matches!(in_time.stage, Stage::AwaitingAuth { .. }));

    // while the provider was asked: the charge is refunded, nothing is sold
    let step = advance(&mut store, in_time.stage, auth_ok(), &config, NOW + 900);
    let charged = Reply::Charged(Ok(ChargeResult { id: "ch_1".to_string(), raw: "{}".to_string() }));
    let step = advance(&mut store, step.stage, charged, &config, NOW + 901);
    assert_eq!(step.action, Action::Ask(Command::Refund { auth_token: "ch_1".to_string() }));
    assert_eq!(
        step.stage,
        Stage::AwaitingRefund {
            payment_id: Some(store.payments[0].id),
            cause: CheckoutError::Rule(BusinessError::InsufficientInventory),
        }
    );
    assert_eq!(store.orders[0].status, OrderStatus::Draft);
    assert_eq!(store.ledger.count(&Selector::InWallet { wallet_id: BUYER_WALLET }), 0);

    // after the sweep: an external payment is refused as well
    let mut store = self::store();
    let cart_id = fill_cart(&mut store, 2, 0);
    store.ledger.release_expired(NOW + 901);
    let clerk = User { id: 99, can_make_external_payments: true };
    let request = CheckoutCartRequest {
        amount: 320,
        method: PaymentRequest::External { reference: "r".to_string() },
    };
    assert_eq!(
        checkout_external(&mut store, cart_id, &"r".to_string(), &request, &clerk, NOW),
        Err(BusinessError::InsufficientInventory)
    );
    assert!(store.payments.is_empty());
}

#[test]
fn what_is_paid_for_is_issued() {
    let mut store = store();
    fill_cart(&mut store, 3, 2);
    let config = config();
    let step = begin(&mut store, &card(false, false));
    let step = advance(&mut store, step.stage, auth_ok(), &config, NOW);
    let charged = Reply::Charged(Ok(ChargeResult { id: "ch_1".to_string(), raw: "{}".to_string() }));
    advance(&mut store, step.stage, charged, &config, NOW);
    assert_eq!(store.orders[0].status, OrderStatus::Paid);
    for item in &store.orders[0].items {
        let issued = store.ledger.count(&Selector::PurchasedFor {
            order_item_id: item.id,
            wallet_id: BUYER_WALLET,
        });
        assert_eq!(issued as i64, item.quantity);
    }
}
