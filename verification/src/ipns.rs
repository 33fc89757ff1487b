//! Notifications from payment providers, as they come in. A notification is
//! accepted at once and queued as work to be done; it is applied later, and
//! again if need be, by its executor.

use crate::errors::BusinessError;
use crate::store::Store;
use vstd::prelude::*;

verus! {

/// The kinds of work that can be queued.
#[derive(Clone, Copy, Debug, PartialEq, Eq, Structural)]
pub enum DomainActionTypes {
    /// A notification from a payment provider is to be applied.
    PaymentProviderIPN,
}

/// A piece of work that waits to be done, and may be tried more than once.
#[derive(Clone, Debug, PartialEq, Eq)]
pub struct DomainAction {
    pub id: u128,
    pub domain_action_type: DomainActionTypes,
    /// What the work is about, as it came: opaque to the queue.
    pub payload: String,
    /// The instant from which the work can be done.
    pub scheduled_at: i64,
    /// The instant after which the work is given up.
    pub expires_at: i64,
    /// How often the work is tried at most.
    pub max_attempt_count: i64,
    /// How often the work has been tried.
    pub attempt_count: i64,
}

/// What is to be done with a piece of work at an instant.
#[derive(Clone, Copy, Debug, PartialEq, Eq, Structural)]
pub enum Readiness {
    /// Given up: its time has run out, or it was tried as often as it may be.
    Expired,
    /// Not yet due.
    Waiting,
    /// To be tried now.
    Due,
}

/// For how many seconds a notification can be applied: thirty days.
pub const IPN_TIME_TO_LIVE: i64 = 2_592_000;

/// How often a notification is tried at most.
pub const IPN_MAX_ATTEMPTS: i64 = 5;

/// The work that a notification received at `now` is queued as.
pub open spec fn ipn_action(id: u128, payload: String, now: i64) -> DomainAction {
    DomainAction {
        id,
        domain_action_type: DomainActionTypes::PaymentProviderIPN,
        payload,
        scheduled_at: now,
        expires_at: (now + IPN_TIME_TO_LIVE) as i64,
        max_attempt_count: IPN_MAX_ATTEMPTS,
        attempt_count: 0,
    }
}

impl DomainAction {
    /// What is to be done with the work at `now`: it is given up after its
    /// expiry and once it has been tried as often as it may be; before it is
    /// scheduled it waits; else it is due.
    pub open spec fn spec_readiness(self, now: i64) -> Readiness {
        if self.expires_at < now || self.attempt_count >= self.max_attempt_count {
            Readiness::Expired
        } else if now < self.scheduled_at {
            Readiness::Waiting
        } else {
            Readiness::Due
        }
    }

    /// What is to be done with the work at `now`.
    pub fn readiness(&self, now: i64) -> (r: Readiness)
        ensures
            r == self.spec_readiness(now),
    {
        if self.expires_at < now || self.attempt_count >= self.max_attempt_count {
            Readiness::Expired
        } else if now < self.scheduled_at {
            Readiness::Waiting
        } else {
            Readiness::Due
        }
    }

    /// The work after one more attempt. The count stops at the largest
    /// number that it can hold, where the work is given up in any case.
    pub fn attempted(self) -> (r: DomainAction)
        ensures
            r == (DomainAction {
                attempt_count: if self.attempt_count < i64::MAX {
                    (self.attempt_count + 1) as i64
                } else {
                    self.attempt_count
                },
                ..self
            }),
            self.max_attempt_count <= self.attempt_count ==> r.max_attempt_count <= r.attempt_count,
    {
        let attempt_count = if self.attempt_count < i64::MAX {
            self.attempt_count + 1
        } else {
            self.attempt_count
        };
        DomainAction {
            id: self.id,
            domain_action_type: self.domain_action_type,
            payload: self.payload,
            scheduled_at: self.scheduled_at,
            expires_at: self.expires_at,
            max_attempt_count: self.max_attempt_count,
            attempt_count,
        }
    }
}

/// Accepts a notification from Globee, received at `now`: it is queued under
/// the next identifier as work of the kind `PaymentProviderIPN`, to be done
/// from now on, for thirty days and at most five times. Nothing is applied
/// yet.
///
/// Refused with `PersistenceError`, and nothing is queued, exactly when the
/// end of the thirty days is past the last instant that can be stored or no
/// identifier is left. Returns the identifier of what was queued.
pub fn globee(store: &mut Store, payload: String, now: i64) -> (r: Result<u128, BusinessError>)
    ensures
        match r {
            Err(e) => (now + IPN_TIME_TO_LIVE > i64::MAX || old(store).next_id == u128::MAX) && e
                == BusinessError::PersistenceError && *final(store) == *old(store),
            Ok(id) => now + IPN_TIME_TO_LIVE <= i64::MAX && old(store).next_id != u128::MAX && id
                == old(store).next_id && *final(store) == (Store {
                domain_actions: final(store).domain_actions,
                next_id: (id + 1) as u128,
                ..*old(store)
            }) && final(store).domain_actions@ == old(store).domain_actions@.push(
                ipn_action(id, payload, now),
            ),
        },
        old(store).wf() ==> final(store).wf(),
{
    let expires_at = match now.checked_add(IPN_TIME_TO_LIVE) {
        None => {
            return Err(BusinessError::PersistenceError);
        },
        Some(t) => t,
    };
    if store.next_id == u128::MAX {
        return Err(BusinessError::PersistenceError);
    }
    let id = store.next_id;
    store.domain_actions.push(
        DomainAction {
            id,
            domain_action_type: DomainActionTypes::PaymentProviderIPN,
            payload,
            scheduled_at: now,
            expires_at,
            max_attempt_count: IPN_MAX_ATTEMPTS,
            attempt_count: 0,
        },
    );
    store.next_id = id + 1;
    Ok(id)
}

} // verus!
