//! Payments on orders and the payment methods that accounts have stored.

use crate::errors::BusinessError;
use crate::records::{Lookup, Record};
use vstd::prelude::*;

verus! {

/// How far a payment has come. A payment is completed from `Authorized`
/// only; `Refunded` and `Failed` are final.
#[derive(Clone, Copy, Debug, PartialEq, Eq, Structural)]
pub enum PaymentStatus {
    Authorized,
    Completed,
    Refunded,
    Failed,
}

/// A payment on an order.
#[derive(Clone, Debug, PartialEq, Eq)]
pub struct Payment {
    pub id: u128,
    pub order_id: u128,
    /// The account that paid.
    pub created_by: u128,
    pub amount: i64,
    /// The provider's name.
    pub provider: String,
    /// The provider's reference for the payment.
    pub external_reference: String,
    pub status: PaymentStatus,
    /// What the provider has sent about the payment, oldest first.
    pub raw_data: Vec<String>,
}

/// A payment method that an account has stored with a provider.
#[derive(Clone, Debug, PartialEq, Eq)]
pub struct PaymentMethod {
    pub id: u128,
    pub user_id: u128,
    /// The provider's name.
    pub name: String,
    pub is_default: bool,
    /// The token by which the provider charges the method again.
    pub provider: String,
    /// What the provider last sent about the method.
    pub provider_data: String,
}

impl Record for Payment {
    open spec fn answers(&self, q: Lookup) -> bool {
        match q {
            Lookup::Id(id) => self.id == id,
            Lookup::DefaultOf(_) => false,
        }
    }

    fn is_answer(&self, q: &Lookup) -> (b: bool) {
        match *q {
            Lookup::Id(id) => self.id == id,
            Lookup::DefaultOf(_) => false,
        }
    }
}

impl Record for PaymentMethod {
    open spec fn answers(&self, q: Lookup) -> bool {
        match q {
            Lookup::Id(id) => self.id == id,
            Lookup::DefaultOf(user) => self.user_id == user && self.is_default,
        }
    }

    fn is_answer(&self, q: &Lookup) -> (b: bool) {
        match *q {
            Lookup::Id(id) => self.id == id,
            Lookup::DefaultOf(user) => self.user_id == user && self.is_default,
        }
    }
}

impl Payment {
    /// Whether the payment still counts on its order: it is neither refunded
    /// nor failed.
    pub open spec fn is_active(&self) -> bool {
        self.status == PaymentStatus::Authorized || self.status == PaymentStatus::Completed
    }

    /// Completes the payment and files what the provider sent.
    ///
    /// From `Authorized` the payment becomes `Completed` and `raw` joins its
    /// record. A payment that is `Completed` already is left exactly as it
    /// is, so a notice that arrives twice counts once. A payment that is
    /// `Refunded` or `Failed` is left as it is and the call is refused with
    /// `InvalidPaymentStatus`.
    pub fn mark_complete(&mut self, raw: String) -> (r: Result<(), BusinessError>)
        ensures
            match old(self).status {
                PaymentStatus::Authorized => r is Ok && *final(self) == (Payment {
                    status: PaymentStatus::Completed,
                    raw_data: final(self).raw_data,
                    ..*old(self)
                }) && final(self).raw_data@ == old(self).raw_data@.push(raw),
                PaymentStatus::Completed => r is Ok && *final(self) == *old(self),
                _ => r == Err::<(), BusinessError>(BusinessError::InvalidPaymentStatus) && *final(self)
                    == *old(self),
            },
    {
        match self.status {
            PaymentStatus::Authorized => {
                self.status = PaymentStatus::Completed;
                self.raw_data.push(raw);
                Ok(())
            },
            PaymentStatus::Completed => Ok(()),
            _ => Err(BusinessError::InvalidPaymentStatus),
        }
    }

    /// Files what the provider sent without touching the status.
    pub fn add_ipn(&mut self, raw: String)
        ensures
            *final(self) == (Payment { raw_data: final(self).raw_data, ..*old(self) }),
            final(self).raw_data@ == old(self).raw_data@.push(raw),
    {
        self.raw_data.push(raw);
    }
}

/// Whether the method is the one that the account has stored with the
/// provider of this name.
pub open spec fn is_method_of(m: PaymentMethod, user_id: u128, provider: Seq<char>) -> bool {
    m.user_id == user_id && m.name@ == provider
}

/// The place of the first method among the first `n` that the account has
/// stored with the provider.
pub open spec fn method_before(methods: Seq<PaymentMethod>, user_id: u128, provider: Seq<char>, n: int) -> Option<
    int,
>
    decreases n,
{
    if n <= 0 {
        None
    } else {
        match method_before(methods, user_id, provider, n - 1) {
            Some(i) => Some(i),
            None => if is_method_of(methods[n - 1], user_id, provider) {
                Some(n - 1)
            } else {
                None
            },
        }
    }
}

/// The place of the first method that the account has stored with the
/// provider.
pub open spec fn method_of(methods: Seq<PaymentMethod>, user_id: u128, provider: Seq<char>) -> Option<
    int,
> {
    method_before(methods, user_id, provider, methods.len() as int)
}

/// A method found among the first is the method found among all, and what
/// is found is in range.
pub proof fn lemma_method_stays(
    methods: Seq<PaymentMethod>,
    user_id: u128,
    provider: Seq<char>,
    m: int,
    n: int,
)
    requires
        0 <= m <= n,
    ensures
        method_before(methods, user_id, provider, m) is Some ==> method_before(
            methods,
            user_id,
            provider,
            n,
        ) == method_before(methods, user_id, provider, m),
        method_before(methods, user_id, provider, n) matches Some(i) ==> 0 <= i < n && is_method_of(
            methods[i],
            user_id,
            provider,
        ),
    decreases n,
{
    if n > m {
        lemma_method_stays(methods, user_id, provider, m, n - 1);
    } else if n > 0 {
        lemma_method_stays(methods, user_id, provider, n - 1, n - 1);
    }
}

/// The place of the first method that the account has stored with the
/// provider.
pub fn find_method(methods: &Vec<PaymentMethod>, user_id: u128, provider: &String) -> (r: Option<usize>)
    ensures
        match r {
            Some(i) => method_of(methods@, user_id, provider@) == Some(i as int) && i
                < methods.len() && is_method_of(methods@[i as int], user_id, provider@),
            None => method_of(methods@, user_id, provider@) is None,
        },
{
    let mut i: usize = 0;
    while i < methods.len()
        invariant
            i <= methods.len(),
            method_before(methods@, user_id, provider@, i as int) is None,
        decreases methods.len() - i,
    {
        if methods[i].user_id == user_id && methods[i].name == *provider {
            proof {
                lemma_method_stays(methods@, user_id, provider@, i + 1, methods.len() as int);
            }
            return Some(i);
        }
        i += 1;
    }
    None
}

} // verus!
