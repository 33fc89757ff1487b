//! Globee as a payment processor: it sends the buyer to a payment page and
//! reports the payment later.

use crate::globee::{GlobeeClient, GlobeeError, PaymentRequest, PaymentResponse};
use crate::payment_processor::{
    ChargeAuthResult, PaymentProcessor, PaymentProcessorBehavior, PaymentProcessorError,
    RedirectInfo,
};
use vstd::prelude::*;

verus! {

/// Whether the error says that the provider does not refund.
pub open spec fn is_no_refund(e: PaymentProcessorError) -> bool {
    e.description@ == "the provider does not refund"@ && e.cause is None
}

/// The Globee processor.
pub struct GlobeePaymentProcessor {
    api_key: String,
    base_url: String,
}

/// What the Globee processor does to take a payment.
pub struct GlobeePaymentProcessorBehavior {
    client: GlobeeClient,
}

impl PaymentProcessorError {
    /// The provider's error as a processor's error: described as the error
    /// reads, with the same text as its cause.
    pub fn from(g: GlobeeError) -> (e: PaymentProcessorError)
        ensures
            e.description@ == g.spec_description(),
            e.cause matches Some(cause) && cause@ == g.spec_description(),
    {
        PaymentProcessorError { description: g.description(), cause: Some(g.description()) }
    }
}

impl GlobeePaymentProcessor {
    /// The processor's key.
    pub closed spec fn api_key(&self) -> String {
        self.api_key
    }

    /// The address that the processor's requests go to.
    pub closed spec fn base_url(&self) -> String {
        self.base_url
    }

    /// A processor with this key, for the provider at this address.
    pub fn new(api_key: String, base_url: String) -> (p: GlobeePaymentProcessor)
        ensures
            p.api_key() == api_key,
            p.base_url() == base_url,
    {
        GlobeePaymentProcessor { api_key, base_url }
    }

    /// What the processor does to take a payment, with a client of its own
    /// settings.
    pub fn redirect_behavior(&self) -> (b: GlobeePaymentProcessorBehavior)
        ensures
            b.client().key() == self.api_key(),
            b.client().spec_base_url() == self.base_url(),
    {
        GlobeePaymentProcessorBehavior {
            client: GlobeeClient::new(self.api_key.clone(), String::new(), self.base_url.clone()),
        }
    }
}

impl PaymentProcessor for GlobeePaymentProcessor {
    fn behavior(&self) -> (b: PaymentProcessorBehavior)
        ensures
            b is RedirectToPaymentPage,
    {
        PaymentProcessorBehavior::RedirectToPaymentPage
    }

    /// Globee refunds nothing through this interface: every call is answered
    /// with an error that says so.
    fn refund(&self, auth_token: &str) -> (r: Result<ChargeAuthResult, PaymentProcessorError>)
        ensures
            r matches Err(e) && is_no_refund(e),
    {
        Err(
            PaymentProcessorError {
                description: "the provider does not refund".to_string(),
                cause: None,
            },
        )
    }

    /// Globee refunds nothing through this interface: every call is answered
    /// with an error that says so.
    fn partial_refund(&self, auth_token: &str, amount: u32) -> (r: Result<
        ChargeAuthResult,
        PaymentProcessorError,
    >)
        ensures
            r matches Err(e) && is_no_refund(e),
    {
        Err(
            PaymentProcessorError {
                description: "the provider does not refund".to_string(),
                cause: None,
            },
        )
    }
}

impl GlobeePaymentProcessorBehavior {
    /// The client that talks to the provider.
    pub closed spec fn client(&self) -> GlobeeClient {
        self.client
    }

    /// The client that talks to the provider.
    pub fn globee_client(&self) -> (c: &GlobeeClient)
        ensures
            *c == self.client(),
    {
        &self.client
    }

    /// The provider's name.
    pub fn name(&self) -> (n: String)
        ensures
            n@ == "Globee"@,
    {
        "Globee".to_string()
    }

    /// The request that asks the provider for a payment of `total` by the
    /// customer with this e-mail address.
    pub fn payment_request(&self, total: String, email: String) -> (r: PaymentRequest)
        ensures
            r == PaymentRequest::plain(total, email),
    {
        PaymentRequest::new(total, email)
    }

    /// What a request for a payment comes to, given what the provider
    /// answered: where to send the buyer, or the provider's error as a
    /// processor's error.
    pub fn create_payment_request(&self, answer: Result<PaymentResponse, GlobeeError>) -> (r: Result<
        RedirectInfo,
        PaymentProcessorError,
    >)
        ensures
            match answer {
                Ok(payment) => r == Ok::<RedirectInfo, PaymentProcessorError>(
                    RedirectInfo { id: payment.id, redirect_url: payment.redirect_url },
                ),
                Err(g) => r matches Err(e) && e.description@ == g.spec_description() && (
                e.cause matches Some(cause) && cause@ == g.spec_description()),
            },
    {
        match answer {
            Ok(payment) => Ok(RedirectInfo { id: payment.id, redirect_url: payment.redirect_url }),
            Err(g) => Err(PaymentProcessorError::from(g)),
        }
    }
}

} // verus!
