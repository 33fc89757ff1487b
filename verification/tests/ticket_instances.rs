use box_office::cart::{
    add, checkout, AddToCartRequest, AddToCartRequestItem, CheckoutCartRequest, PaymentRequest,
};
use box_office::checkout::{advance, Action, Reply, Stage, User};
use box_office::errors::BusinessError;
use box_office::inventory::{RedeemResults, Selector, TicketInstance, TicketInstanceStatus};
use box_office::orders::{FeeSchedule, FeeScheduleRange, TicketType};
use box_office::service_locator::{Config, ServiceLocator};
use box_office::store::{Catalog, Store};
use box_office::transfers::TransferAuthorization;
use box_office::assets::Asset;
use box_office::wallets::Wallet;
use uuid::Uuid;

const TICKET_TYPE: u128 = 7_000;
const ASSET: u128 = 8_000;
const ORG_WALLET: u128 = 9_000;
const NOW: i64 = 1_700_000_000;

struct TestProject {
    store: Store,
    config: Config,
    locator: ServiceLocator,
}

fn project(tickets: u64) -> TestProject {
    let config = Config {
        primary_currency: "usd".to_string(),
        stripe_secret_key: "sk_test".to_string(),
        charge_description: "Tickets".to_string(),
        token_description: "Stored card".to_string(),
    };
    let locator = ServiceLocator::new(&config);
    let mut store = Store::new(Catalog {
        ticket_types: vec![TicketType { id: TICKET_TYPE, price_in_cents: 150, redeem_date: None }],
        allotments: vec![],
        fee_schedule: FeeSchedule {
            ranges: vec![FeeScheduleRange { min_price: 0, fee_in_cents: 10 }],
        },
        hold_window: 900,
    });
    store.wallets.push(Wallet {
        id: ORG_WALLET,
        owner_id: 1,
        is_default: true,
        secret_key: "org-secret".to_string(),
        public_key: "org-public".to_string(),
    });
    store.assets.push(Asset { id: ASSET, blockchain_asset_id: Some("asset.tickets".to_string()) });
    for i in 0..tickets {
        store.ledger.mint(100_000 + i as u128, TICKET_TYPE, ASSET, i, ORG_WALLET).unwrap();
        store.ledger.issue_redeem_key(100_000 + i as u128, format!("redeem-{}", i)).unwrap();
    }
    TestProject { store, config, locator }
}

fn create_user(project: &mut TestProject, id: u128) -> User {
    project.store.wallets.push(Wallet {
        id: 50_000 + id,
        owner_id: id,
        is_default: true,
        secret_key: format!("secret-{}", id),
        public_key: format!("public-{}", id),
    });
    User { id, can_make_external_payments: true }
}

fn default_wallet(project: &TestProject, user: &User) -> Wallet {
    project.store.wallets.iter().find(|w| w.owner_id == user.id && w.is_default).unwrap().clone()
}

fn fill_cart(project: &mut TestProject, user: &User, quantity: i64) -> u128 {
    let request = AddToCartRequest {
        items: vec![AddToCartRequestItem {
            redemption_key: None,
            ticket_type_id: TICKET_TYPE,
            quantity,
        }],
    };
    add(&mut project.store, user.id, &request, NOW).unwrap().cart_id
}

fn pay_cart(project: &mut TestProject, user: &User, amount: i64) -> u128 {
    let request = CheckoutCartRequest {
        amount,
        method: PaymentRequest::External { reference: "test".to_string() },
    };
    let mut step =
        checkout(&mut project.store, user, &request, &project.config, &project.locator, NOW);
    loop {
        match step.action {
            Action::Transfer(_) => {
                step = advance(
                    &mut project.store,
                    step.stage,
                    Reply::Transferred(Ok(())),
                    &project.config,
                    NOW,
                );
            }
            Action::Nothing => break,
            Action::Ask(_) => panic!("an external payment asks no provider"),
        }
    }
    match step.stage {
        Stage::Finished(Ok(response)) => response.payment_id,
        other => panic!("checkout did not go through: {:?}", other),
    }
}

fn paid_order(project: &mut TestProject, user: &User, quantity: i64) {
    fill_cart(project, user, quantity);
    pay_cart(project, user, 160 * quantity);
}

#[test]
fn release() {
    let mut project = project(3);
    let user = create_user(&mut project, 11);
    paid_order(&mut project, &user, 1);
    let ticket = box_office::transfers::find_for_user(
        &project.store.ledger,
        &project.store.wallets,
        user.id,
    )
    .unwrap()
    .remove(0);
    assert_eq!(ticket.status, TicketInstanceStatus::Purchased);
    box_office::transfers::authorize_ticket_transfer(
        &mut project.store.ledger,
        &project.store.wallets,
        user.id,
        &vec![ticket.id],
        3600,
        NOW,
        77,
    )
    .unwrap();
    assert!(project.store.ledger.release(ticket.id).is_ok());

    // Reload ticket
    let ticket = project.store.ledger.find(ticket.id).unwrap();
    assert!(ticket.order_item_id.is_none());
    assert!(ticket.transfer_key.is_none());
    assert!(ticket.transfer_expiry_date.is_none());
    assert_eq!(ticket.status, TicketInstanceStatus::Available);
}

#[test]
fn set_wallet() {
    let mut project = project(3);
    let user = create_user(&mut project, 11);
    let user2 = create_user(&mut project, 12);
    let user_wallet = default_wallet(&project, &user);
    let user2_wallet = default_wallet(&project, &user2);
    paid_order(&mut project, &user, 1);
    let ticket = box_office::transfers::find_for_user(
        &project.store.ledger,
        &project.store.wallets,
        user.id,
    )
    .unwrap()
    .remove(0);
    assert_eq!(ticket.wallet_id, user_wallet.id);
    project.store.ledger.set_wallet(ticket.id, user2_wallet.id).unwrap();
    let ticket = project.store.ledger.find(ticket.id).unwrap();
    assert_eq!(ticket.wallet_id, user2_wallet.id);
}

#[test]
fn ticket_instances_find() {
    let mut project = project(3);
    let user = create_user(&mut project, 11);
    let cart_id = fill_cart(&mut project, &user, 1);
    let cart = box_office::cart::show(&project.store, user.id).unwrap();
    assert_eq!(cart.id, cart_id);
    let order_item = cart.items.iter().find(|i| i.ticket_type_id == TICKET_TYPE).unwrap();
    let fee = project.store.catalog.fee_schedule.lookup(order_item.unit_price_in_cents);
    assert_eq!(order_item.unit_price_in_cents + fee, 160);
    let ticket = project
        .store
        .ledger
        .select(&Selector::HeldBy { order_item_id: order_item.id })
        .remove(0);
    let found = project.store.ledger.find(ticket.id).unwrap();
    assert_eq!(found, ticket);
    assert_eq!(found.ticket_type_id, TICKET_TYPE);
    assert_eq!(found.status, TicketInstanceStatus::Reserved);
    assert_eq!(found.order_item_id, Some(order_item.id));
    assert_eq!(found.transfer_key, None);
    assert!(project.store.ledger.find(Uuid::new_v4().as_u128()).is_err());
}

#[test]
fn find_for_user() {
    let mut project = project(10);
    let user = create_user(&mut project, 11);
    fill_cart(&mut project, &user, 5);
    let total = box_office::cart::show(&project.store, user.id)
        .unwrap()
        .calculate_total(&project.store.catalog.fee_schedule)
        .unwrap();
    pay_cart(&mut project, &user, total);

    let tickets = box_office::transfers::find_for_user(
        &project.store.ledger,
        &project.store.wallets,
        user.id,
    )
    .unwrap();

    assert_eq!(tickets.len(), 5);
    assert!(project.store.ledger.find(Uuid::new_v4().as_u128()).is_err());
}

#[test]
fn tickets_of_several_orders_are_found_for_their_user() {
    let mut project = project(10);
    let user = create_user(&mut project, 11);
    paid_order(&mut project, &user, 2);
    paid_order(&mut project, &user, 2);
    let found = box_office::transfers::find_for_user(
        &project.store.ledger,
        &project.store.wallets,
        user.id,
    )
    .unwrap();
    assert_eq!(found.len(), 4);
    assert!(box_office::transfers::find_for_user(
        &project.store.ledger,
        &project.store.wallets,
        Uuid::new_v4().as_u128(),
    )
    .is_err());
}

#[test]
fn release_tickets() {
    let mut project = project(20);
    let user = create_user(&mut project, 11);
    fill_cart(&mut project, &user, 10);
    let order = box_office::cart::show(&project.store, user.id).unwrap();
    let order_item_id = order.items.iter().find(|i| i.ticket_type_id == TICKET_TYPE).unwrap().id;

    // Release tickets
    let released_tickets = project.store.ledger.release_tickets(order_item_id, 4).unwrap();

    assert_eq!(released_tickets.len(), 4);
    assert!(released_tickets
        .iter()
        .filter(|&ticket| ticket.order_item_id == Some(order_item_id))
        .collect::<Vec<&TicketInstance>>()
        .is_empty());
    assert!(released_tickets
        .iter()
        .filter(|&ticket| ticket.reserved_until.is_some())
        .collect::<Vec<&TicketInstance>>()
        .is_empty());

    // Release requesting too many tickets
    let released_tickets = project.store.ledger.release_tickets(order_item_id, 7);
    assert_eq!(released_tickets.unwrap_err().code(), 7200,);
    assert_eq!(
        project.store.ledger.count(&Selector::ReservedFor { order_item_id }),
        6
    );
}

#[test]
fn authorize_ticket_transfer() {
    let mut project = project(20);
    let user = create_user(&mut project, 11);
    fill_cart(&mut project, &user, 5);
    let total = box_office::cart::show(&project.store, user.id)
        .unwrap()
        .calculate_total(&project.store.catalog.fee_schedule)
        .unwrap();
    pay_cart(&mut project, &user, total);

    let tickets =
        box_office::transfers::find_for_user(&project.store.ledger, &project.store.wallets, user.id)
            .unwrap();

    assert_eq!(tickets.len(), 5);
    //try with a ticket that does not exist in the list

    let mut ticket_ids: Vec<u128> = tickets.iter().map(|t| t.id).collect();
    ticket_ids.push(Uuid::new_v4().as_u128());

    let transfer_auth2 = box_office::transfers::authorize_ticket_transfer(
        &mut project.store.ledger,
        &project.store.wallets,
        user.id,
        &ticket_ids,
        24,
        NOW,
        71,
    );

    assert!(transfer_auth2.is_err());
    assert_eq!(transfer_auth2.unwrap_err(), BusinessError::NotOwner);

    //Now try with tickets that the user does own

    let ticket_ids: Vec<u128> = tickets.iter().map(|t| t.id).collect();

    let transfer_auth3 = box_office::transfers::authorize_ticket_transfer(
        &mut project.store.ledger,
        &project.store.wallets,
        user.id,
        &ticket_ids,
        24,
        NOW,
        72,
    )
    .unwrap();

    assert_eq!(transfer_auth3.sender_user_id, user.id);
    assert_eq!(transfer_auth3.num_tickets, 5);
}

#[test]
fn receive_ticket_transfer() {
    let mut project = project(20);
    let user = create_user(&mut project, 11);
    fill_cart(&mut project, &user, 5);
    let total = box_office::cart::show(&project.store, user.id)
        .unwrap()
        .calculate_total(&project.store.catalog.fee_schedule)
        .unwrap();
    pay_cart(&mut project, &user, total);
    let tickets =
        box_office::transfers::find_for_user(&project.store.ledger, &project.store.wallets, user.id)
            .unwrap();
    let ticket_ids: Vec<u128> = tickets.iter().map(|t| t.id).collect();

    let user2 = create_user(&mut project, 12);
    //try receive ones that are expired
    let transfer_auth = box_office::transfers::authorize_ticket_transfer(
        &mut project.store.ledger,
        &project.store.wallets,
        user.id,
        &ticket_ids,
        0,
        NOW,
        81,
    )
    .unwrap();

    let sender_wallet = default_wallet(&project, &user);
    let receiver_wallet = default_wallet(&project, &user2);

    let receive_auth2 = box_office::transfers::receive_ticket_transfer(
        &mut project.store.ledger,
        transfer_auth,
        &sender_wallet,
        receiver_wallet.id,
        NOW + 1,
    );

    assert!(receive_auth2.is_err());
    assert_eq!(receive_auth2.unwrap_err(), BusinessError::AuthorizationExpired);

    //try receive the wrong number of tickets (too few)
    let transfer_auth = box_office::transfers::authorize_ticket_transfer(
        &mut project.store.ledger,
        &project.store.wallets,
        user.id,
        &ticket_ids,
        3600,
        NOW,
        82,
    )
    .unwrap();

    let mut wrong_auth: TransferAuthorization = transfer_auth.clone();
    wrong_auth.num_tickets = 4;
    let receive_auth1 = box_office::transfers::receive_ticket_transfer(
        &mut project.store.ledger,
        wrong_auth,
        &sender_wallet,
        receiver_wallet.id,
        NOW + 1,
    );
    assert!(receive_auth1.is_err());
    assert_eq!(receive_auth1.unwrap_err(), BusinessError::CountMismatch);

    //legit receive tickets
    let receive_auth3 = box_office::transfers::receive_ticket_transfer(
        &mut project.store.ledger,
        transfer_auth,
        &sender_wallet,
        receiver_wallet.id,
        NOW + 1,
    );
    assert_eq!(receive_auth3.unwrap().len(), 5);

    //Look if one of the tickets does have the new wallet_id
    let receive_wallet = default_wallet(&project, &user2);

    let received_ticket = project.store.ledger.find(ticket_ids[0]).unwrap();

    assert_eq!(receive_wallet.id, received_ticket.wallet_id);

    // the authorization is used up
    let again = box_office::transfers::receive_ticket_transfer(
        &mut project.store.ledger,
        transfer_auth,
        &sender_wallet,
        receiver_wallet.id,
        NOW + 2,
    );
    assert_eq!(again.unwrap_err(), BusinessError::CountMismatch);
}

#[test]
fn a_ticket_named_twice_counts_once() {
    let mut project = project(5);
    let user = create_user(&mut project, 11);
    let user2 = create_user(&mut project, 12);
    paid_order(&mut project, &user, 2);
    let tickets = box_office::transfers::find_for_user(
        &project.store.ledger,
        &project.store.wallets,
        user.id,
    )
    .unwrap();
    let named = vec![tickets[0].id, tickets[1].id, tickets[0].id];
    let auth = box_office::transfers::authorize_ticket_transfer(
        &mut project.store.ledger,
        &project.store.wallets,
        user.id,
        &named,
        60,
        NOW,
        91,
    )
    .unwrap();
    assert_eq!(
        auth,
        TransferAuthorization {
            transfer_key: 91,
            sender_user_id: user.id,
            num_tickets: 2,
            issued_at: NOW,
            ttl_seconds: 60,
        }
    );
    let bound = project.store.ledger.select(&Selector::Keyed { transfer_key: 91 });
    assert_eq!(bound.len(), 2);
    assert!(bound.iter().all(|t| t.transfer_expiry_date == Some(NOW + 60)));

    // a key that is in use is not given out again, and an account without wallet owns nothing
    let taken = box_office::transfers::authorize_ticket_transfer(
        &mut project.store.ledger,
        &project.store.wallets,
        user.id,
        &named,
        60,
        NOW,
        91,
    );
    assert_eq!(taken.unwrap_err(), BusinessError::PersistenceError);
    let nobody = box_office::transfers::authorize_ticket_transfer(
        &mut project.store.ledger,
        &project.store.wallets,
        404,
        &named,
        60,
        NOW,
        92,
    );
    assert_eq!(nobody.unwrap_err(), BusinessError::NotOwner);
    let too_late = box_office::transfers::authorize_ticket_transfer(
        &mut project.store.ledger,
        &project.store.wallets,
        user.id,
        &named,
        60,
        i64::MAX,
        93,
    );
    assert_eq!(too_late.unwrap_err(), BusinessError::PersistenceError);

    let sender_wallet = default_wallet(&project, &user);
    let receiver_wallet = default_wallet(&project, &user2);
    let at_the_last_moment = box_office::transfers::receive_ticket_transfer(
        &mut project.store.ledger,
        auth,
        &sender_wallet,
        receiver_wallet.id,
        NOW + 60,
    )
    .unwrap();
    assert_eq!(at_the_last_moment.len(), 2);
    assert!(at_the_last_moment
        .iter()
        .all(|t| t.wallet_id == receiver_wallet.id && t.transfer_key.is_none()));
}

#[test]
fn redeem_ticket() {
    let mut project = project(3);
    let user = create_user(&mut project, 11);
    paid_order(&mut project, &user, 1);
    let ticket = box_office::transfers::find_for_user(
        &project.store.ledger,
        &project.store.wallets,
        user.id,
    )
    .unwrap()
    .remove(0);

    let result1 = project.store.ledger.redeem_ticket(ticket.id, "WrongKey".to_string()).unwrap();
    assert_eq!(result1, RedeemResults::TicketInvalid);
    let result2 =
        project.store.ledger.redeem_ticket(ticket.id, ticket.redeem_key.clone().unwrap()).unwrap();
    assert_eq!(result2, RedeemResults::TicketRedeemSuccess);

    let redeemed = project.store.ledger.find(ticket.id).unwrap();
    assert_eq!(redeemed.status, TicketInstanceStatus::Redeemed);
    assert_eq!(redeemed.order_item_id, None);
    assert_eq!(redeemed.wallet_id, ticket.wallet_id);
    let result3 = project.store.ledger.redeem_ticket(ticket.id, ticket.redeem_key.unwrap()).unwrap();
    assert_eq!(result3, RedeemResults::TicketAlreadyRedeemed);
    let unsold = project.store.ledger.redeem_ticket(100_002, "redeem-2".to_string()).unwrap();
    assert_eq!(unsold, RedeemResults::TicketInvalid);
    assert_eq!(
        project.store.ledger.redeem_ticket(Uuid::new_v4().as_u128(), "k".to_string()),
        Err(BusinessError::NoResults)
    );
    assert_eq!(
        project.store.ledger.issue_redeem_key(Uuid::new_v4().as_u128(), "k".to_string()),
        Err(BusinessError::NoResults)
    );
}

#[test]
fn was_transferred() {
    let mut project = project(3);
    let user = create_user(&mut project, 11);
    let user2 = create_user(&mut project, 12);
    paid_order(&mut project, &user, 1);
    let ticket = box_office::transfers::find_for_user(
        &project.store.ledger,
        &project.store.wallets,
        user.id,
    )
    .unwrap()
    .remove(0);

    // Not transferred
    assert!(!box_office::transfers::was_transferred(&project.store, ticket.id).unwrap());

    let sender_wallet = default_wallet(&project, &user);
    let receiver_wallet = default_wallet(&project, &user2);
    let transfer_auth = box_office::transfers::authorize_ticket_transfer(
        &mut project.store.ledger,
        &project.store.wallets,
        user.id,
        &vec![ticket.id],
        3600,
        NOW,
        61,
    )
    .unwrap();
    box_office::transfers::receive_ticket_transfer(
        &mut project.store.ledger,
        transfer_auth,
        &sender_wallet,
        receiver_wallet.id,
        NOW,
    )
    .unwrap();

    // Transferred
    assert!(box_office::transfers::was_transferred(&project.store, ticket.id).unwrap());
    assert!(!box_office::transfers::was_transferred(&project.store, 100_002).unwrap());
    assert_eq!(
        box_office::transfers::was_transferred(&project.store, Uuid::new_v4().as_u128()),
        Err(BusinessError::NoResults)
    );
}

#[test]
fn show_redeemable_ticket() {
    let mut project = project(3);
    let user = create_user(&mut project, 11);
    paid_order(&mut project, &user, 1);
    let ticket = box_office::transfers::find_for_user(
        &project.store.ledger,
        &project.store.wallets,
        user.id,
    )
    .unwrap()
    .remove(0);

    //make redeem date in the future
    project.store.catalog.ticket_types[0].redeem_date = Some(NOW + 2 * 24 * 60 * 60);

    let result =
        box_office::transfers::show_redeemable_ticket(&project.store, ticket.id, NOW).unwrap();
    assert!(result.redeem_key.is_none());

    //make redeem date in the past
    project.store.catalog.ticket_types[0].redeem_date = Some(NOW - 2 * 24 * 60 * 60);

    let result =
        box_office::transfers::show_redeemable_ticket(&project.store, ticket.id, NOW).unwrap();
    assert!(result.redeem_key.is_some());
    assert_eq!(result.redeem_key, ticket.redeem_key);
    assert_eq!(result.user_id, Some(user.id));
    assert_eq!(result.status, TicketInstanceStatus::Purchased);

    // Set order on behalf of (should show user information for the on_behalf_of_user user)
    let user2 = create_user(&mut project, 12);
    let cart_id = fill_cart(&mut project, &user, 1);
    project.store.orders.iter_mut().find(|o| o.id == cart_id).unwrap().on_behalf_of_user_id =
        Some(user2.id);
    pay_cart(&mut project, &user, 160);
    let order = project.store.orders.iter().find(|o| o.id == cart_id).unwrap();
    let ticket = project
        .store
        .ledger
        .select(&Selector::HeldBy { order_item_id: order.items[0].id })
        .remove(0);
    let result =
        box_office::transfers::show_redeemable_ticket(&project.store, ticket.id, NOW).unwrap();
    assert_eq!(result.user_id, Some(user2.id));
    assert_eq!(result.order_id, Some(cart_id));

    // a ticket that nobody holds, and one that is not there
    let unsold =
        box_office::transfers::show_redeemable_ticket(&project.store, 100_002, NOW).unwrap();
    assert_eq!(unsold.user_id, None);
    assert_eq!(unsold.redeem_key, Some("redeem-2".to_string()));
    assert_eq!(
        box_office::transfers::show_redeemable_ticket(&project.store, Uuid::new_v4().as_u128(), NOW),
        Err(BusinessError::NoResults)
    );
}
