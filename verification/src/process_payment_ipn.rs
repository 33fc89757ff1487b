//! Applying a notification from a payment provider to the payment that it
//! is about. A notification may arrive twice, or be tried twice: applying it
//! again changes nothing that the first time has not changed already.

use crate::errors::BusinessError;
use crate::globee::GlobeeIpnRequest;
use crate::identifiers::{parse_uuid, uuid_parsed};
use crate::ipns::DomainAction;
use crate::payments::{Payment, PaymentStatus};
use crate::records::{first, lemma_first, position, Lookup};
use crate::store::{one_active_payment_each, Store};
use vstd::prelude::*;

verus! {

/// The executor of the work of kind `PaymentProviderIPN`.
pub struct ProcessPaymentIPNExecutor {}

/// Whether the notification says that the payment is paid for good.
pub open spec fn says_paid(status: Option<String>) -> bool {
    status matches Some(s) && s@ == "paid"@
}

/// Whether the notification says that the payment is paid for good,
/// computed.
pub fn is_paid(status: &Option<String>) -> (b: bool)
    ensures
        b == says_paid(*status),
{
    match status {
        Some(s) => *s == "paid".to_string(),
        None => false,
    }
}

/// What applying a notification to the payment with this id comes to.
///
/// `NoResults`, and nothing changes, where there is no such payment. A
/// notification that says "paid" completes the payment: from `Authorized` it
/// becomes `Completed` and files the notification; a payment that is
/// `Completed` already stays exactly as it is; one that is `Refunded` or
/// `Failed` stays as it is too, and the notification is refused with
/// `InvalidPaymentStatus`. Any other notification is filed with the payment
/// and leaves its status alone. Nothing but the payment changes.
pub open spec fn ipn_applied(
    before: Store,
    after: Store,
    payment_id: u128,
    status: Option<String>,
    raw: String,
    r: Result<(), BusinessError>,
) -> bool {
    match first(before.payments@, Lookup::Id(payment_id)) {
        None => r == Err::<(), BusinessError>(BusinessError::NoResults) && after == before,
        Some(p) => {
            let payment = before.payments@[p];
            if says_paid(status) && payment.status != PaymentStatus::Authorized {
                after == before && r == (if payment.status == PaymentStatus::Completed {
                    Ok::<(), BusinessError>(())
                } else {
                    Err::<(), BusinessError>(BusinessError::InvalidPaymentStatus)
                })
            } else {
                &&& r is Ok
                &&& after == (Store { payments: after.payments, ..before })
                &&& after.payments@ == before.payments@.update(
                    p,
                    Payment {
                        status: if says_paid(status) {
                            PaymentStatus::Completed
                        } else {
                            payment.status
                        },
                        raw_data: after.payments@[p].raw_data,
                        ..payment
                    },
                )
                &&& after.payments@[p].raw_data@ == payment.raw_data@.push(raw)
            }
        },
    }
}

/// Applies a notification to the payment with this id: see
/// [`ipn_applied`].
pub fn apply_ipn(store: &mut Store, payment_id: u128, status: &Option<String>, raw: String) -> (r:
    Result<(), BusinessError>)
    ensures
        ipn_applied(*old(store), *final(store), payment_id, *status, raw, r),
        old(store).wf() ==> final(store).wf(),
{
    let p = match position(&store.payments, &Lookup::Id(payment_id)) {
        None => {
            return Err(BusinessError::NoResults);
        },
        Some(p) => p,
    };
    let ghost before = store.payments@;
    if is_paid(status) {
        match store.payments[p].status {
            PaymentStatus::Authorized => {},
            PaymentStatus::Completed => {
                return Ok(());
            },
            _ => {
                return Err(BusinessError::InvalidPaymentStatus);
            },
        }
        let mut payment = store.payments.remove(p);
        let _marked = payment.mark_complete(raw);
        store.payments.insert(p, payment);
    } else {
        let mut payment = store.payments.remove(p);
        payment.add_ipn(raw);
        store.payments.insert(p, payment);
    }
    proof {
        assert(store.payments@ =~= before.update(
            p as int,
            Payment {
                status: if says_paid(*status) {
                    PaymentStatus::Completed
                } else {
                    before[p as int].status
                },
                raw_data: store.payments@[p as int].raw_data,
                ..before[p as int]
            },
        ));
        if one_active_payment_each(before) {
            assert forall|i: int, j: int|
                0 <= i < j < store.payments@.len() && (#[trigger] store.payments@[i]).is_active() && (
                #[trigger] store.payments@[j]).is_active() implies store.payments@[i].order_id
                != store.payments@[j].order_id by {
                assert(before[i].is_active() && before[j].is_active());
            }
        }
    }
    Ok(())
}

/// What doing the work of a notification comes to, given what its payload
/// reads as.
///
/// A payload that cannot be read is reported as `MalformedNotification`. A
/// notification that names no payment is let pass, and nothing changes. One
/// whose reference does not read as an identifier is reported as
/// `MalformedNotification`. Else the notification is applied to the payment
/// that it names, with the payload as what is filed (see [`ipn_applied`]).
pub open spec fn job_done(
    before: Store,
    after: Store,
    action: DomainAction,
    ipn: Option<GlobeeIpnRequest>,
    r: Result<(), BusinessError>,
) -> bool {
    match ipn {
        None => after == before && r == Err::<(), BusinessError>(
            BusinessError::MalformedNotification,
        ),
        Some(ipn) => match ipn.custom_payment_id {
            None => after == before && r is Ok,
            Some(reference) => match uuid_parsed(reference@) {
                None => after == before && r == Err::<(), BusinessError>(
                    BusinessError::MalformedNotification,
                ),
                Some(payment_id) => ipn_applied(
                    before,
                    after,
                    payment_id,
                    ipn.status,
                    action.payload,
                    r,
                ),
            },
        },
    }
}

impl ProcessPaymentIPNExecutor {
    /// The executor.
    pub fn new() -> ProcessPaymentIPNExecutor {
        ProcessPaymentIPNExecutor {  }
    }

    /// Does the work of a notification: see [`job_done`]. `ipn` is what the
    /// action's payload reads as, or nothing where it cannot be read. Every
    /// failure is reported in the result; whether the work is tried again is
    /// for the queue to decide.
    pub fn perform_job(
        &self,
        action: &DomainAction,
        ipn: Option<&GlobeeIpnRequest>,
        store: &mut Store,
    ) -> (r: Result<(), BusinessError>)
        ensures
            job_done(
                *old(store),
                *final(store),
                *action,
                match ipn {
                    Some(ipn) => Some(*ipn),
                    None => None,
                },
                r,
            ),
            old(store).wf() ==> final(store).wf(),
    {
        let ipn = match ipn {
            None => {
                return Err(BusinessError::MalformedNotification);
            },
            Some(ipn) => ipn,
        };
        let reference = match &ipn.custom_payment_id {
            None => {
                return Ok(());
            },
            Some(reference) => reference,
        };
        let payment_id = match parse_uuid(reference.as_str()) {
            Err(_) => {
                return Err(BusinessError::MalformedNotification);
            },
            Ok(id) => id,
        };
        apply_ipn(store, payment_id, &ipn.status, action.payload.clone())
    }

    /// Executes an action of the kind `PaymentProviderIPN`: does its work
    /// and reports how it went.
    pub fn execute(
        &self,
        action: &DomainAction,
        ipn: Option<&GlobeeIpnRequest>,
        store: &mut Store,
    ) -> (r: Result<(), BusinessError>)
        ensures
            job_done(
                *old(store),
                *final(store),
                *action,
                match ipn {
                    Some(ipn) => Some(*ipn),
                    None => None,
                },
                r,
            ),
            old(store).wf() ==> final(store).wf(),
    {
        self.perform_job(action, ipn, store)
    }
}

/// Idempotent notification. Let a notification that says "paid" be applied
/// to a payment, and then again with the same payload. Then the second time
/// changes nothing: the store after it is the store after the first. Where
/// the payment was authorized before, it is completed after, and the payload
/// is filed with it once.
pub proof fn law_paid_notification_idempotent(
    s0: Store,
    s1: Store,
    s2: Store,
    payment_id: u128,
    status: Option<String>,
    raw: String,
    r1: Result<(), BusinessError>,
    r2: Result<(), BusinessError>,
)
    requires
        says_paid(status),
        ipn_applied(s0, s1, payment_id, status, raw, r1),
        ipn_applied(s1, s2, payment_id, status, raw, r2),
    ensures
        s2 == s1,
        first(s0.payments@, Lookup::Id(payment_id)) matches Some(p) ==> (s0.payments@[p].status
            == PaymentStatus::Authorized ==> r1 is Ok && r2 is Ok && s2.payments@[p].status
            == PaymentStatus::Completed && s2.payments@[p].raw_data@
            == s0.payments@[p].raw_data@.push(raw)),
        r2 == (if r1 is Ok {
            Ok::<(), BusinessError>(())
        } else {
            r1
        }),
{
    lemma_first(s0.payments@, Lookup::Id(payment_id), s0.payments@.len() as int);
    match first(s0.payments@, Lookup::Id(payment_id)) {
        None => {},
        Some(p) => {
            lemma_same_ids_same_first(s0.payments@, s1.payments@, payment_id);
        },
    }
}

/// Tables that hold the same ids at the same places answer a lookup by id
/// at the same place.
pub proof fn lemma_same_ids_same_first(a: Seq<Payment>, b: Seq<Payment>, id: u128)
    requires
        a.len() == b.len(),
        forall|i: int| 0 <= i < a.len() ==> (#[trigger] a[i]).id == b[i].id,
    ensures
        first(a, Lookup::Id(id)) == first(b, Lookup::Id(id)),
{
    lemma_same_first_before(a, b, id, a.len() as int);
}

/// Tables that hold the same ids at the same places answer a lookup by id
/// among their first `n` records at the same place.
pub proof fn lemma_same_first_before(a: Seq<Payment>, b: Seq<Payment>, id: u128, n: int)
    requires
        0 <= n <= a.len(),
        a.len() == b.len(),
        forall|i: int| 0 <= i < a.len() ==> (#[trigger] a[i]).id == b[i].id,
    ensures
        crate::records::first_before(a, Lookup::Id(id), n) == crate::records::first_before(
            b,
            Lookup::Id(id),
            n,
        ),
    decreases n,
{
    if n > 0 {
        lemma_same_first_before(a, b, id, n - 1);
        assert(a[n - 1].id == b[n - 1].id);
    }
}

} // verus!
