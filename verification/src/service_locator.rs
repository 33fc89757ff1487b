//! Which payment providers the box office works with, and with what
//! settings.

use crate::errors::BusinessError;
use vstd::prelude::*;

verus! {

/// What the box office is configured with, as far as payments go.
#[derive(Clone, Debug, PartialEq, Eq)]
pub struct Config {
    /// The currency in which charges are made.
    pub primary_currency: String,
    pub stripe_secret_key: String,
    /// What a charge is described as to the provider.
    pub charge_description: String,
    /// What a stored payment method is described as to the provider.
    pub token_description: String,
}

/// What it takes to talk to a provider.
#[derive(Clone, Debug, PartialEq, Eq)]
pub enum ProcessorSettings {
    Stripe { secret_key: String },
}

/// Knows the providers by name.
pub struct ServiceLocator {
    stripe_secret_key: String,
}

/// Whether a provider of this name is known.
pub open spec fn is_known_provider(name: Seq<char>) -> bool {
    name == "stripe"@
}

impl ServiceLocator {
    /// The secret key of the provider `stripe`.
    pub closed spec fn stripe_secret_key(&self) -> String {
        self.stripe_secret_key
    }

    /// A locator for this configuration.
    pub fn new(config: &Config) -> (s: ServiceLocator)
        ensures
            s.stripe_secret_key() == config.stripe_secret_key,
    {
        ServiceLocator { stripe_secret_key: config.stripe_secret_key.clone() }
    }

    /// The settings of the provider of this name. `UnknownPaymentProvider`
    /// exactly when the name is not `stripe`.
    pub fn create_payment_processor(&self, provider_name: &String) -> (r: Result<
        ProcessorSettings,
        BusinessError,
    >)
        ensures
            match r {
                Ok(settings) => is_known_provider(provider_name@) && settings == (
                ProcessorSettings::Stripe { secret_key: self.stripe_secret_key() }),
                Err(e) => !is_known_provider(provider_name@) && e
                    == BusinessError::UnknownPaymentProvider,
            },
    {
        if *provider_name == "stripe".to_string() {
            Ok(ProcessorSettings::Stripe { secret_key: self.stripe_secret_key.clone() })
        } else {
            Err(BusinessError::UnknownPaymentProvider)
        }
    }
}

} // verus!
