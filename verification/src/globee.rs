//! The Globee payment provider: what is sent to ask for a payment, what
//! comes back, and how an answer is read. Sending is not done here.

use vstd::prelude::*;

verus! {

/// How fast a payment is to be confirmed.
#[derive(Clone, Copy, Debug, PartialEq, Eq, Structural)]
pub enum ConfirmationSpeed {
    High,
    Medium,
    Low,
}

/// An e-mail address.
#[derive(Clone, Debug, PartialEq, Eq)]
pub struct Email(pub String);

/// The customer who pays.
#[derive(Clone, Debug, PartialEq, Eq)]
pub struct Customer {
    pub name: Option<String>,
    pub email: Email,
}

/// A request for a payment.
#[derive(Clone, Debug, PartialEq, Eq)]
pub struct PaymentRequest {
    /// The total amount in the invoice currency, in decimal notation.
    pub total: String,
    pub currency: Option<String>,
    /// A reference by which the payment is found again when the provider
    /// reports on it.
    pub custom_payment_id: Option<String>,
    /// Data that the provider hands back with its report.
    pub callback_data: Option<String>,
    pub customer: Customer,
    pub success_url: Option<String>,
    pub cancel_url: Option<String>,
    pub ipn_url: Option<String>,
    pub notification_email: Option<Email>,
    pub confirmation_speed: Option<ConfirmationSpeed>,
    pub custom_store_reference: Option<String>,
}

/// The provider's account of a payment that was asked for.
#[derive(Clone, Debug, PartialEq, Eq)]
pub struct PaymentResponse {
    pub id: String,
    pub status: String,
    /// The total as the provider adjusted it, in cents.
    pub adjusted_total_in_cents: Option<i64>,
    /// The page on which the buyer pays.
    pub redirect_url: String,
    pub request: PaymentRequest,
}

/// One thing that the provider found wrong with a request.
#[derive(Clone, Debug, PartialEq, Eq)]
pub struct ValidationError {
    pub type_: String,
    pub extra: Option<Vec<String>>,
    pub field: String,
    pub message: String,
}

/// All that the provider found wrong with a request.
#[derive(Clone, Debug, PartialEq, Eq)]
pub struct Errors(pub Vec<ValidationError>);

/// What the provider answers: whether the request went through, and with it
/// the payment or what was wrong.
#[derive(Clone, Debug, PartialEq, Eq)]
pub struct GlobeeResponse {
    pub success: bool,
    pub data: Option<PaymentResponse>,
    pub errors: Option<Vec<ValidationError>>,
}

/// What the provider reports about a payment, out of band.
#[derive(Clone, Debug, PartialEq, Eq)]
pub struct GlobeeIpnRequest {
    /// The provider's reference for the payment.
    pub id: String,
    pub status: Option<String>,
    /// The reference that was given with the request for the payment: the
    /// payment's identifier, as text.
    pub custom_payment_id: Option<String>,
}

/// Why a request to the provider failed.
#[derive(Clone, Debug, PartialEq, Eq)]
pub enum GlobeeError {
    /// The provider found the request wrong.
    ValidationError(Errors),
    /// The request did not reach the provider, or its answer could not be
    /// read; the text says what went wrong.
    HttpError(String),
    /// The provider answered, but not with what its success flag promises.
    UnexpectedResponseError(String),
}

/// What the provider's settings are.
pub struct GlobeeClient {
    key: String,
    secret: String,
    base_url: String,
}

impl Errors {
    /// What the errors are described as, whatever they are.
    pub fn description(&self) -> (r: String)
        ensures
            r@ == "One or more errors occurred"@,
    {
        "One or more errors occurred".to_string()
    }
}

impl PaymentRequest {
    /// The request for a payment of `total` by the customer with this e-mail
    /// address, with nothing else said.
    pub open spec fn plain(total: String, email: String) -> PaymentRequest {
        PaymentRequest {
            total,
            currency: None,
            custom_payment_id: None,
            callback_data: None,
            customer: Customer { name: None, email: Email(email) },
            success_url: None,
            cancel_url: None,
            ipn_url: None,
            notification_email: None,
            confirmation_speed: None,
            custom_store_reference: None,
        }
    }

    /// A request for a payment of `total` by the customer with this e-mail
    /// address, with nothing else said.
    pub fn new(total: String, email: String) -> (r: PaymentRequest)
        ensures
            r == PaymentRequest::plain(total, email),
    {
        PaymentRequest {
            total,
            currency: None,
            custom_payment_id: None,
            callback_data: None,
            customer: Customer { name: None, email: Email(email) },
            success_url: None,
            cancel_url: None,
            ipn_url: None,
            notification_email: None,
            confirmation_speed: None,
            custom_store_reference: None,
        }
    }
}

/// Whether the error is an unexpected response with the text that says so.
pub open spec fn is_unexpected(e: GlobeeError) -> bool {
    e matches GlobeeError::UnexpectedResponseError(text) && text@
        == "API did not return a response that was expected"@
}

impl GlobeeClient {
    /// The client's key.
    pub closed spec fn key(&self) -> String {
        self.key
    }

    /// The client's secret.
    pub closed spec fn secret(&self) -> String {
        self.secret
    }

    /// The address that requests go to.
    pub closed spec fn spec_base_url(&self) -> String {
        self.base_url
    }

    /// A client with these settings. The address is that of the provider's
    /// payment interface, live or test.
    pub fn new(key: String, secret: String, base_url: String) -> (c: GlobeeClient)
        ensures
            c.key() == key,
            c.secret() == secret,
            c.spec_base_url() == base_url,
    {
        GlobeeClient { key, secret, base_url }
    }

    /// The address that requests go to.
    pub fn base_url(&self) -> (url: &String)
        ensures
            *url == self.spec_base_url(),
    {
        &self.base_url
    }

    /// What a request for a payment comes to, given the provider's answer.
    ///
    /// An answer that reports success carries the payment; one that reports
    /// failure carries what was wrong, which comes back as a validation
    /// error. An answer that lacks what its flag promises is an unexpected
    /// response.
    pub fn create_payment_request(&self, response: GlobeeResponse) -> (r: Result<
        PaymentResponse,
        GlobeeError,
    >)
        ensures
            match (response.success, response.data, response.errors) {
                (true, Some(data), _) => r == Ok::<PaymentResponse, GlobeeError>(data),
                (false, _, Some(errors)) => r == Err::<PaymentResponse, GlobeeError>(
                    GlobeeError::ValidationError(Errors(errors)),
                ),
                _ => r matches Err(e) && is_unexpected(e),
            },
    {
        if response.success {
            match response.data {
                Some(data) => Ok(data),
                None => Err(
                    GlobeeError::UnexpectedResponseError(
                        "API did not return a response that was expected".to_string(),
                    ),
                ),
            }
        } else {
            match response.errors {
                Some(errors) => Err(GlobeeError::ValidationError(Errors(errors))),
                None => Err(
                    GlobeeError::UnexpectedResponseError(
                        "API did not return a response that was expected".to_string(),
                    ),
                ),
            }
        }
    }
}

impl GlobeeError {
    /// What the error reads as: the embedded text of an HTTP error or an
    /// unexpected response, and the common description of validation errors.
    pub open spec fn spec_description(self) -> Seq<char> {
        match self {
            GlobeeError::ValidationError(_) => "One or more errors occurred"@,
            GlobeeError::HttpError(text) => text@,
            GlobeeError::UnexpectedResponseError(text) => text@,
        }
    }

    /// What the error reads as.
    pub fn description(&self) -> (r: String)
        ensures
            r@ == self.spec_description(),
    {
        match self {
            GlobeeError::ValidationError(errors) => errors.description(),
            GlobeeError::HttpError(text) => text.clone(),
            GlobeeError::UnexpectedResponseError(text) => text.clone(),
        }
    }
}

} // verus!
