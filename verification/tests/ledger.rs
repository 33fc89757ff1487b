use box_office::errors::BusinessError;
use box_office::inventory::{Ledger, Selector, TicketInstance, TicketInstanceStatus};

const TYPE_A: u128 = 1;
const TYPE_B: u128 = 2;

fn minted(of_a: u64, of_b: u64) -> Ledger {
    let mut ledger = Ledger::new();
    for i in 0..of_a {
        ledger.mint(100 + i as u128, TYPE_A, 900, i, 50).unwrap();
    }
    for i in 0..of_b {
        ledger.mint(200 + i as u128, TYPE_B, 901, i, 50).unwrap();
    }
    ledger
}

fn count(ledger: &Ledger, ticket_type_id: u128, status: TicketInstanceStatus) -> usize {
    ledger.count(&Selector::OfType { ticket_type_id, status })
}

fn in_circulation(ledger: &Ledger, ticket_type_id: u128) -> usize {
    count(ledger, ticket_type_id, TicketInstanceStatus::Available)
        + count(ledger, ticket_type_id, TicketInstanceStatus::Reserved)
        + count(ledger, ticket_type_id, TicketInstanceStatus::Purchased)
}

#[test]
fn a_new_instance_is_available_and_held_by_nobody() {
    let t = TicketInstance::new(1, 2, 3, 4, 5);
    assert_eq!(t.id, 1);
    assert_eq!(t.ticket_type_id, 2);
    assert_eq!(t.asset_id, 3);
    assert_eq!(t.token_id, 4);
    assert_eq!(t.wallet_id, 5);
    assert_eq!(t.status, TicketInstanceStatus::Available);
    assert_eq!(t.order_item_id, None);
    assert_eq!(t.reserved_until, None);
    assert_eq!(t.transfer_key, None);
}

#[test]
fn minting_refuses_an_id_that_is_taken() {
    let mut ledger = minted(2, 0);
    assert_eq!(ledger.mint(100, TYPE_A, 900, 9, 50), Err(BusinessError::PersistenceError));
    assert_eq!(ledger.len(), 2);
    assert_eq!(ledger.mint(102, TYPE_A, 900, 9, 50), Ok(()));
    assert_eq!(ledger.len(), 3);
    assert_eq!(ledger.tickets()[2].id, 102);
}

#[test]
fn reserve_takes_the_first_available_in_ledger_order() {
    let mut ledger = minted(5, 3);
    let reserved = ledger.reserve(TYPE_A, 2, None, 77, 1_000).unwrap();
    assert_eq!(reserved.len(), 2);
    assert_eq!(reserved[0].id, 100);
    assert_eq!(reserved[1].id, 101);
    for t in &reserved {
        assert_eq!(t.status, TicketInstanceStatus::Reserved);
        assert_eq!(t.order_item_id, Some(77));
        assert_eq!(t.reserved_until, Some(1_000));
    }
    assert_eq!(ledger.find(102).unwrap().status, TicketInstanceStatus::Available);
    assert_eq!(count(&ledger, TYPE_A, TicketInstanceStatus::Available), 3);
    assert_eq!(count(&ledger, TYPE_B, TicketInstanceStatus::Available), 3);
    let more = ledger.reserve(TYPE_A, 1, None, 78, 2_000).unwrap();
    assert_eq!(more[0].id, 102);
}

#[test]
fn reserve_of_nothing_changes_nothing() {
    let mut ledger = minted(2, 0);
    assert_eq!(ledger.reserve(TYPE_A, 0, None, 77, 1_000).unwrap().len(), 0);
    assert_eq!(ledger.reserve(TYPE_A, -3, None, 77, 1_000).unwrap().len(), 0);
    assert_eq!(count(&ledger, TYPE_A, TicketInstanceStatus::Available), 2);
}

#[test]
fn conservation_over_a_run_of_requests() {
    let mut ledger = minted(10, 4);
    assert_eq!(in_circulation(&ledger, TYPE_A), 10);
    ledger.reserve(TYPE_A, 4, None, 1, 1_000).unwrap();
    assert_eq!(in_circulation(&ledger, TYPE_A), 10);
    ledger.reserve(TYPE_A, 3, None, 2, 500).unwrap();
    ledger.release_tickets(1, 1).unwrap();
    assert_eq!(in_circulation(&ledger, TYPE_A), 10);
    assert_eq!(ledger.reserve(TYPE_A, 20, None, 3, 1_000).unwrap_err(), BusinessError::InsufficientInventory);
    ledger.commit_purchase(1);
    assert_eq!(in_circulation(&ledger, TYPE_A), 10);
    ledger.release_expired(700);
    assert_eq!(in_circulation(&ledger, TYPE_A), 10);
    assert_eq!(count(&ledger, TYPE_A, TicketInstanceStatus::Available), 7);
    assert_eq!(count(&ledger, TYPE_A, TicketInstanceStatus::Reserved), 0);
    assert_eq!(count(&ledger, TYPE_A, TicketInstanceStatus::Purchased), 3);
    assert_eq!(ledger.count(&Selector::Minted { ticket_type_id: TYPE_A }), 10);
    assert_eq!(in_circulation(&ledger, TYPE_B), 4);
}

#[test]
fn no_oversell_whichever_reservation_comes_first() {
    let mut ledger = minted(10, 0);
    assert!(ledger.reserve(TYPE_A, 7, None, 1, 1_000).is_ok());
    assert_eq!(ledger.reserve(TYPE_A, 5, None, 2, 1_000).unwrap_err(), BusinessError::InsufficientInventory);
    assert_eq!(count(&ledger, TYPE_A, TicketInstanceStatus::Available), 3);
    assert_eq!(count(&ledger, TYPE_A, TicketInstanceStatus::Reserved), 7);

    let mut ledger = minted(10, 0);
    assert!(ledger.reserve(TYPE_A, 5, None, 2, 1_000).is_ok());
    assert_eq!(ledger.reserve(TYPE_A, 7, None, 1, 1_000).unwrap_err(), BusinessError::InsufficientInventory);
    assert_eq!(count(&ledger, TYPE_A, TicketInstanceStatus::Available), 5);
    assert!(ledger.reserve(TYPE_A, 5, None, 3, 1_000).is_ok());
    assert_eq!(ledger.reserve(TYPE_A, 1, None, 4, 1_000).unwrap_err(), BusinessError::InsufficientInventory);
    assert_eq!(count(&ledger, TYPE_A, TicketInstanceStatus::Reserved), 10);
}

#[test]
fn releasing_more_than_is_reserved_fails_and_keeps_the_reservation() {
    let mut ledger = minted(10, 0);
    ledger.reserve(TYPE_A, 4, None, 9, 1_000).unwrap();
    let refused = ledger.release_tickets(9, 7).unwrap_err();
    assert_eq!(refused, BusinessError::ReleaseExceedsReserved);
    assert_eq!(refused.code(), 7200);
    assert_ne!(refused.code(), BusinessError::InsufficientInventory.code());
    assert_eq!(ledger.count(&Selector::ReservedFor { order_item_id: 9 }), 4);
    let released = ledger.release_tickets(9, 4).unwrap();
    assert_eq!(released.len(), 4);
    assert_eq!(ledger.count(&Selector::ReservedFor { order_item_id: 9 }), 0);
    assert_eq!(count(&ledger, TYPE_A, TicketInstanceStatus::Available), 10);
}

#[test]
fn release_frees_the_first_reserved_of_the_item() {
    let mut ledger = minted(5, 0);
    ledger.reserve(TYPE_A, 2, None, 1, 1_000).unwrap();
    ledger.reserve(TYPE_A, 3, None, 2, 1_000).unwrap();
    let released = ledger.release_tickets(2, 2).unwrap();
    assert_eq!(released.iter().map(|t| t.id).collect::<Vec<u128>>(), vec![102, 103]);
    for t in &released {
        assert_eq!(t.status, TicketInstanceStatus::Available);
        assert_eq!(t.order_item_id, None);
        assert_eq!(t.reserved_until, None);
    }
    assert_eq!(ledger.find(104).unwrap().order_item_id, Some(2));
    assert_eq!(ledger.find(100).unwrap().order_item_id, Some(1));
}

#[test]
fn commit_purchase_is_idempotent() {
    let mut ledger = minted(5, 0);
    ledger.reserve(TYPE_A, 3, None, 1, 1_000).unwrap();
    let first = ledger.commit_purchase(1);
    assert_eq!(first.len(), 3);
    for t in &first {
        assert_eq!(t.status, TicketInstanceStatus::Purchased);
        assert_eq!(t.order_item_id, Some(1));
        assert_eq!(t.reserved_until, None);
    }
    let before: Vec<TicketInstance> = ledger.tickets().clone();
    let second = ledger.commit_purchase(1);
    assert_eq!(second.len(), 0);
    assert_eq!(ledger.tickets(), &before);
}

#[test]
fn the_sweep_releases_only_holds_that_ran_out() {
    let mut ledger = minted(6, 0);
    ledger.reserve(TYPE_A, 2, None, 1, 100).unwrap();
    ledger.reserve(TYPE_A, 2, None, 2, 200).unwrap();
    ledger.reserve(TYPE_A, 1, None, 3, 150).unwrap();
    ledger.commit_purchase(3);
    let swept = ledger.release_expired(200);
    assert_eq!(swept.iter().map(|t| t.id).collect::<Vec<u128>>(), vec![100, 101]);
    assert_eq!(ledger.count(&Selector::ReservedFor { order_item_id: 2 }), 2);
    assert_eq!(ledger.find(104).unwrap().status, TicketInstanceStatus::Purchased);
    assert_eq!(ledger.release_expired(201).len(), 2);
    assert_eq!(ledger.count(&Selector::Lapsed { now: 10_000 }), 0);
}

#[test]
fn select_and_snapshot() {
    let mut ledger = minted(3, 2);
    ledger.reserve(TYPE_B, 1, None, 5, 10).unwrap();
    let held = ledger.select(&Selector::HeldBy { order_item_id: 5 });
    assert_eq!(held.len(), 1);
    assert_eq!(held[0].id, 200);
    let copy = ledger.snapshot();
    assert_eq!(copy.tickets(), ledger.tickets());
    ledger.release_tickets(5, 1).unwrap();
    assert_eq!(copy.find(200).unwrap().status, TicketInstanceStatus::Reserved);
    assert_eq!(ledger.find(200).unwrap().status, TicketInstanceStatus::Available);
}

#[test]
fn release_and_set_wallet_need_their_ticket() {
    let mut ledger = minted(2, 0);
    assert_eq!(ledger.release(100).unwrap_err(), BusinessError::NoResults);
    assert_eq!(ledger.set_wallet(999, 1).unwrap_err(), BusinessError::NoResults);
    assert_eq!(ledger.find(999).unwrap_err(), BusinessError::NoResults);
    ledger.reserve(TYPE_A, 1, None, 1, 10).unwrap();
    ledger.commit_purchase(1);
    assert_eq!(ledger.release(100).unwrap().len(), 1);
    assert_eq!(ledger.find(100).unwrap(), TicketInstance::new(100, TYPE_A, 900, 0, 50));
}

#[test]
fn tickets_set_aside_are_on_offer_with_their_hold_only() {
    let mut ledger = minted(6, 0);
    let aside = ledger.set_aside(TYPE_A, 2, 40).unwrap();
    assert_eq!(aside.iter().map(|t| t.id).collect::<Vec<u128>>(), vec![100, 101]);
    assert!(aside.iter().all(|t| t.allotment_id == Some(40) && t.status == TicketInstanceStatus::Available));
    assert_eq!(ledger.count(&Selector::OnOffer { ticket_type_id: TYPE_A, allotment_id: None }), 4);
    assert_eq!(ledger.count(&Selector::OnOffer { ticket_type_id: TYPE_A, allotment_id: Some(40) }), 2);
    assert_eq!(ledger.count(&Selector::OnOffer { ticket_type_id: TYPE_A, allotment_id: Some(41) }), 0);

    assert_eq!(ledger.reserve(TYPE_A, 5, None, 1, 1_000).unwrap_err(), BusinessError::InsufficientInventory);
    assert_eq!(ledger.reserve(TYPE_A, 3, Some(40), 1, 1_000).unwrap_err(), BusinessError::InsufficientInventory);
    assert_eq!(ledger.reserve(TYPE_A, 1, Some(41), 1, 1_000).unwrap_err(), BusinessError::InsufficientInventory);
    let plain = ledger.reserve(TYPE_A, 4, None, 1, 1_000).unwrap();
    assert_eq!(plain.iter().map(|t| t.id).collect::<Vec<u128>>(), vec![102, 103, 104, 105]);
    let held = ledger.reserve(TYPE_A, 2, Some(40), 2, 1_000).unwrap();
    assert_eq!(held.iter().map(|t| t.id).collect::<Vec<u128>>(), vec![100, 101]);

    // a released ticket goes back to where it was on offer
    ledger.release_tickets(2, 1).unwrap();
    assert_eq!(ledger.find(100).unwrap().allotment_id, Some(40));
    assert_eq!(ledger.count(&Selector::OnOffer { ticket_type_id: TYPE_A, allotment_id: Some(40) }), 1);
    assert_eq!(ledger.set_aside(TYPE_A, 1, 41).unwrap_err(), BusinessError::InsufficientInventory);
    assert_eq!(ledger.set_aside(TYPE_A, 0, 41).unwrap().len(), 0);
    assert_eq!(in_circulation(&ledger, TYPE_A), 6);
}
