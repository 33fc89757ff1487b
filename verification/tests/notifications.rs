use box_office::errors::BusinessError;
use box_office::globee::GlobeeIpnRequest;
use box_office::ipns::{globee, DomainAction, DomainActionTypes, Readiness};
use box_office::orders::FeeSchedule;
use box_office::payments::{Payment, PaymentStatus};
use box_office::process_payment_ipn::{apply_ipn, is_paid, ProcessPaymentIPNExecutor};
use box_office::store::{Catalog, Store};
use uuid::Uuid;

const NOW: i64 = 1_700_000_000;
const PAYMENT: u128 = 0xa1a2a3a4_b1b2_c1c2_d1d2_d3d4d5d6d7d8;

fn store(status: PaymentStatus) -> Store {
    let mut store = Store::new(Catalog {
        ticket_types: vec![],
        allotments: vec![],
        fee_schedule: FeeSchedule { ranges: vec![] },
        hold_window: 900,
    });
    store.payments.push(Payment {
        id: 5,
        order_id: 1,
        created_by: 2,
        amount: 10,
        provider: "Globee".to_string(),
        external_reference: "x".to_string(),
        status: PaymentStatus::Failed,
        raw_data: vec![],
    });
    store.payments.push(Payment {
        id: PAYMENT,
        order_id: 3,
        created_by: 2,
        amount: 100,
        provider: "Globee".to_string(),
        external_reference: "a1B2".to_string(),
        status,
        raw_data: vec!["{\"first\":1}".to_string()],
    });
    store
}

fn ipn(status: Option<&str>, custom_payment_id: Option<&str>) -> GlobeeIpnRequest {
    GlobeeIpnRequest {
        id: "a1B2".to_string(),
        status: status.map(|s| s.to_string()),
        custom_payment_id: custom_payment_id.map(|s| s.to_string()),
    }
}

fn action(payload: &str) -> DomainAction {
    DomainAction {
        id: 70,
        domain_action_type: DomainActionTypes::PaymentProviderIPN,
        payload: payload.to_string(),
        scheduled_at: NOW,
        expires_at: NOW + 2_592_000,
        max_attempt_count: 5,
        attempt_count: 0,
    }
}

#[test]
fn a_notification_is_queued_for_thirty_days_and_five_attempts() {
    let mut store = store(PaymentStatus::Authorized);
    let id = globee(&mut store, "{\"id\":\"a1B2\"}".to_string(), NOW).unwrap();
    assert_eq!(id, 1);
    assert_eq!(store.next_id, 2);
    assert_eq!(
        store.domain_actions,
        vec![DomainAction {
            id: 1,
            domain_action_type: DomainActionTypes::PaymentProviderIPN,
            payload: "{\"id\":\"a1B2\"}".to_string(),
            scheduled_at: NOW,
            expires_at: NOW + 30 * 24 * 60 * 60,
            max_attempt_count: 5,
            attempt_count: 0,
        }]
    );
    assert_eq!(store.payments[1].status, PaymentStatus::Authorized);
    assert_eq!(globee(&mut store, "{}".to_string(), i64::MAX - 5), Err(BusinessError::PersistenceError));
    assert_eq!(store.domain_actions.len(), 1);
}

#[test]
fn a_paid_notification_completes_the_payment_once() {
    let mut store = store(PaymentStatus::Authorized);
    let executor = ProcessPaymentIPNExecutor::new();
    let reference = Uuid::from_u128(PAYMENT).to_string();
    assert_eq!(reference, "a1a2a3a4-b1b2-c1c2-d1d2-d3d4d5d6d7d8");
    let notice = ipn(Some("paid"), Some(&reference));
    let work = action("{\"status\":\"paid\"}");
    assert_eq!(executor.execute(&work, Some(&notice), &mut store), Ok(()));
    assert_eq!(store.payments[1].status, PaymentStatus::Completed);
    assert_eq!(
        store.payments[1].raw_data,
        vec!["{\"first\":1}".to_string(), "{\"status\":\"paid\"}".to_string()]
    );
    let after_first = store.payments.clone();
    assert_eq!(executor.execute(&work, Some(&notice), &mut store), Ok(()));
    assert_eq!(store.payments, after_first);
    assert_eq!(store.payments[0].status, PaymentStatus::Failed);
}

#[test]
fn any_other_notification_is_filed_only() {
    let mut store = store(PaymentStatus::Authorized);
    let executor = ProcessPaymentIPNExecutor::new();
    let reference = Uuid::from_u128(PAYMENT).to_string();
    let work = action("{\"status\":\"unpaid\"}");
    assert_eq!(executor.perform_job(&work, Some(&ipn(Some("unpaid"), Some(&reference))), &mut store), Ok(()));
    assert_eq!(executor.perform_job(&work, Some(&ipn(None, Some(&reference))), &mut store), Ok(()));
    assert_eq!(store.payments[1].status, PaymentStatus::Authorized);
    assert_eq!(store.payments[1].raw_data.len(), 3);
    assert!(is_paid(&Some("paid".to_string())));
    assert!(!is_paid(&Some("Paid".to_string())));
    assert!(!is_paid(&None));
}

#[test]
fn what_cannot_be_applied_is_reported() {
    let mut store = store(PaymentStatus::Refunded);
    let executor = ProcessPaymentIPNExecutor::new();
    let work = action("{}");
    let reference = Uuid::from_u128(PAYMENT).to_string();
    assert_eq!(executor.perform_job(&work, None, &mut store), Err(BusinessError::MalformedNotification));
    assert_eq!(
        executor.perform_job(&work, Some(&ipn(Some("paid"), Some("not-an-id"))), &mut store),
        Err(BusinessError::MalformedNotification)
    );
    assert_eq!(executor.perform_job(&work, Some(&ipn(Some("paid"), None)), &mut store), Ok(()));
    let unknown = Uuid::from_u128(77).to_string();
    assert_eq!(
        executor.perform_job(&work, Some(&ipn(Some("paid"), Some(&unknown))), &mut store),
        Err(BusinessError::NoResults)
    );
    assert_eq!(
        executor.perform_job(&work, Some(&ipn(Some("paid"), Some(&reference))), &mut store),
        Err(BusinessError::InvalidPaymentStatus)
    );
    assert_eq!(store.payments[1].status, PaymentStatus::Refunded);
    assert_eq!(store.payments[1].raw_data.len(), 1);
    assert_eq!(apply_ipn(&mut store, 5, &Some("paid".to_string()), "{}".to_string()), Err(BusinessError::InvalidPaymentStatus));
    assert_eq!(apply_ipn(&mut store, 5, &Some("late".to_string()), "{}".to_string()), Ok(()));
    assert_eq!(store.payments[0].raw_data.len(), 1);
    assert_eq!(store.payments[0].status, PaymentStatus::Failed);
}

#[test]
fn payments_are_completed_from_authorized_only() {
    let mut payment = Payment {
        id: 1,
        order_id: 1,
        created_by: 1,
        amount: 1,
        provider: "p".to_string(),
        external_reference: "r".to_string(),
        status: PaymentStatus::Authorized,
        raw_data: vec![],
    };
    assert_eq!(payment.mark_complete("a".to_string()), Ok(()));
    assert_eq!(payment.status, PaymentStatus::Completed);
    assert_eq!(payment.mark_complete("a".to_string()), Ok(()));
    assert_eq!(payment.raw_data, vec!["a".to_string()]);
    payment.add_ipn("b".to_string());
    assert_eq!(payment.raw_data, vec!["a".to_string(), "b".to_string()]);
    payment.status = PaymentStatus::Refunded;
    assert_eq!(payment.mark_complete("c".to_string()), Err(BusinessError::InvalidPaymentStatus));
    assert_eq!(payment.raw_data.len(), 2);
}

#[test]
fn work_is_due_between_its_schedule_and_its_expiry() {
    let mut work = action("{}");
    assert_eq!(work.readiness(NOW - 1), Readiness::Waiting);
    assert_eq!(work.readiness(NOW), Readiness::Due);
    assert_eq!(work.readiness(NOW + 2_592_000), Readiness::Due);
    assert_eq!(work.readiness(NOW + 2_592_001), Readiness::Expired);
    for n in 1..=5 {
        work = work.attempted();
        assert_eq!(work.attempt_count, n);
    }
    assert_eq!(work.readiness(NOW), Readiness::Expired);
    work.attempt_count = i64::MAX;
    assert_eq!(work.attempted().attempt_count, i64::MAX);
}
