//! What a payment provider offers. A provider has one of two shapes: it
//! authorizes a charge and completes it on request, or it sends the buyer to
//! a page of its own and reports the payment later. Callers ask a processor
//! for its behavior and go by the shape, not by the provider.

use vstd::prelude::*;

verus! {

/// What every operation of a provider fails with: a description, and the
/// provider's own account of the cause where there is one.
#[derive(Clone, Debug, PartialEq, Eq)]
pub struct PaymentProcessorError {
    pub description: String,
    pub cause: Option<String>,
}

/// An authorized charge, or a refund of one.
#[derive(Clone, Debug, PartialEq, Eq)]
pub struct ChargeAuthResult {
    /// The provider's reference for the charge.
    pub id: String,
    /// What the provider answered, as it came.
    pub raw: String,
}

/// A completed charge.
#[derive(Clone, Debug, PartialEq, Eq)]
pub struct ChargeResult {
    pub id: String,
    pub raw: String,
}

/// A token by which a buyer can be charged again.
#[derive(Clone, Debug, PartialEq, Eq)]
pub struct RepeatChargeToken {
    pub token: String,
    pub raw: String,
}

/// Where a buyer is sent to pay.
#[derive(Clone, Debug, PartialEq, Eq)]
pub struct RedirectInfo {
    pub id: String,
    pub redirect_url: String,
}

/// The shape of a provider that authorizes first and completes later.
pub trait AuthThenCompletePaymentBehavior {
    fn name(&self) -> String;

    fn create_token_for_repeat_charges(&self, token: &str, description: &str) -> Result<
        RepeatChargeToken,
        PaymentProcessorError,
    >;

    fn update_repeat_token(&self, repeat_token: &str, token: &str, description: &str) -> Result<
        RepeatChargeToken,
        PaymentProcessorError,
    >;

    fn auth(
        &self,
        token: &str,
        amount: i64,
        currency: &str,
        description: &str,
        metadata: Vec<(String, String)>,
    ) -> Result<ChargeAuthResult, PaymentProcessorError>;

    fn complete_authed_charge(&self, auth_token: &str) -> Result<ChargeResult, PaymentProcessorError>;
}

/// How a processor takes payments.
pub enum PaymentProcessorBehavior {
    AuthThenComplete(Box<dyn AuthThenCompletePaymentBehavior>),
    RedirectToPaymentPage,
}

/// A payment provider.
pub trait PaymentProcessor {
    fn behavior(&self) -> PaymentProcessorBehavior;

    fn refund(&self, auth_token: &str) -> Result<ChargeAuthResult, PaymentProcessorError>;

    fn partial_refund(&self, auth_token: &str, amount: u32) -> Result<
        ChargeAuthResult,
        PaymentProcessorError,
    >;
}

} // verus!
