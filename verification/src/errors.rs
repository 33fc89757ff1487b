//! The business-rule violations that the box office reports.

use vstd::prelude::*;

verus! {

/// Why an operation was refused. A refusal is final: nothing is retried, and
/// the state is as it was before the call unless the operation says otherwise.
#[derive(Clone, Copy, Debug, PartialEq, Eq, Structural)]
pub enum BusinessError {
    /// A request to add to a cart named no items.
    EmptyRequest,
    /// Fewer instances are available than were asked for.
    InsufficientInventory,
    /// More instances were to be released than the order item has reserved.
    ReleaseExceedsReserved,
    /// The order is not in the status that the operation needs.
    InvalidOrderStatus,
    /// A ticket is backed by an asset that has no identity on the external
    /// ledger yet.
    AssetNotProvisioned,
    /// The account does not own every ticket it wants to dispose of, or acts
    /// on an order that is not its own.
    NotOwner,
    /// A transfer authorization was presented after it ran out.
    AuthorizationExpired,
    /// A transfer authorization claims another number of tickets than are
    /// bound to it.
    CountMismatch,
    /// A record could not be stored: its identifier is taken, or no
    /// identifier is left.
    PersistenceError,
    /// No record answers the lookup.
    NoResults,
    /// The account lacks the permission that the operation needs.
    Unauthorized,
    /// The account has no cart.
    CartNotFound,
    /// The cart has no such item.
    ItemNotInCart,
    /// The account has no default payment method.
    NoDefaultPaymentMethod,
    /// The account has stored no payment method with the provider.
    NoStoredPaymentMethod,
    /// A card payment came without a token.
    MissingToken,
    /// No payment provider of that name is known.
    UnknownPaymentProvider,
    /// The payment is refunded or failed and cannot be completed.
    InvalidPaymentStatus,
    /// A notification cannot be read, or does not name its payment in a way
    /// that can be read.
    MalformedNotification,
}

impl BusinessError {
    /// The number by which callers tell the refusals apart.
    pub open spec fn spec_code(self) -> int {
        match self {
            BusinessError::EmptyRequest => 1100,
            BusinessError::InsufficientInventory => 7000,
            BusinessError::ReleaseExceedsReserved => 7200,
            BusinessError::InvalidOrderStatus => 7300,
            BusinessError::AssetNotProvisioned => 5000,
            BusinessError::NotOwner => 6000,
            BusinessError::AuthorizationExpired => 7400,
            BusinessError::CountMismatch => 7500,
            BusinessError::PersistenceError => 3100,
            BusinessError::NoResults => 2000,
            BusinessError::Unauthorized => 6100,
            BusinessError::CartNotFound => 2100,
            BusinessError::ItemNotInCart => 2200,
            BusinessError::NoDefaultPaymentMethod => 2300,
            BusinessError::NoStoredPaymentMethod => 2400,
            BusinessError::MissingToken => 1200,
            BusinessError::UnknownPaymentProvider => 1300,
            BusinessError::InvalidPaymentStatus => 7600,
            BusinessError::MalformedNotification => 1400,
        }
    }

    /// The number by which callers tell the refusals apart.
    pub fn code(&self) -> (c: i32)
        ensures
            c == self.spec_code(),
    {
        match self {
            BusinessError::EmptyRequest => 1100,
            BusinessError::InsufficientInventory => 7000,
            BusinessError::ReleaseExceedsReserved => 7200,
            BusinessError::InvalidOrderStatus => 7300,
            BusinessError::AssetNotProvisioned => 5000,
            BusinessError::NotOwner => 6000,
            BusinessError::AuthorizationExpired => 7400,
            BusinessError::CountMismatch => 7500,
            BusinessError::PersistenceError => 3100,
            BusinessError::NoResults => 2000,
            BusinessError::Unauthorized => 6100,
            BusinessError::CartNotFound => 2100,
            BusinessError::ItemNotInCart => 2200,
            BusinessError::NoDefaultPaymentMethod => 2300,
            BusinessError::NoStoredPaymentMethod => 2400,
            BusinessError::MissingToken => 1200,
            BusinessError::UnknownPaymentProvider => 1300,
            BusinessError::InvalidPaymentStatus => 7600,
            BusinessError::MalformedNotification => 1400,
        }
    }

    /// Whether the refusal is a fault on the serving side rather than in what
    /// the user asked for.
    pub open spec fn spec_is_server_fault(self) -> bool {
        self == BusinessError::AssetNotProvisioned || self == BusinessError::PersistenceError
    }

    /// Whether the refusal is a fault on the serving side rather than in what
    /// the user asked for.
    pub fn is_server_fault(&self) -> (b: bool)
        ensures
            b == self.spec_is_server_fault(),
    {
        match self {
            BusinessError::AssetNotProvisioned => true,
            BusinessError::PersistenceError => true,
            _ => false,
        }
    }

    /// How the refusal is answered over HTTP: 401 to an account without the
    /// permission, 403 to one that is not the owner, 500 for a fault on the
    /// serving side, and 422 for everything else that was asked and cannot
    /// be done.
    pub open spec fn spec_status_code(self) -> int {
        match self {
            BusinessError::Unauthorized => 401,
            BusinessError::NotOwner => 403,
            BusinessError::AssetNotProvisioned => 500,
            BusinessError::PersistenceError => 500,
            _ => 422,
        }
    }

    /// How the refusal is answered over HTTP.
    pub fn status_code(&self) -> (c: u16)
        ensures
            c == self.spec_status_code(),
            self.spec_is_server_fault() <==> c == 500,
    {
        match self {
            BusinessError::Unauthorized => 401,
            BusinessError::NotOwner => 403,
            BusinessError::AssetNotProvisioned => 500,
            BusinessError::PersistenceError => 500,
            _ => 422,
        }
    }

    /// The refusal in words, for the user to read.
    pub open spec fn spec_message(self) -> Seq<char> {
        match self {
            BusinessError::EmptyRequest => "Could not add to cart as no items provided"@,
            BusinessError::InsufficientInventory => "Could not reserve tickets, not enough tickets are available"@,
            BusinessError::ReleaseExceedsReserved => "Could not release the correct amount of tickets"@,
            BusinessError::InvalidOrderStatus => "Could not complete this cart because it is not in the correct status"@,
            BusinessError::AssetNotProvisioned => "Could not complete this checkout because the asset has not been assigned on the blockchain"@,
            BusinessError::NotOwner => "This cart does not belong to you"@,
            BusinessError::AuthorizationExpired => "The transfer authorization has expired"@,
            BusinessError::CountMismatch => "The number of tickets does not match the transfer authorization"@,
            BusinessError::PersistenceError => "Could not store the record"@,
            BusinessError::NoResults => "No results"@,
            BusinessError::Unauthorized => "Unauthorized"@,
            BusinessError::CartNotFound => "No cart exists for user"@,
            BusinessError::ItemNotInCart => "Cart does not contain order item"@,
            BusinessError::NoDefaultPaymentMethod => "Could not complete this cart because user has no default payment method"@,
            BusinessError::NoStoredPaymentMethod => "Could not complete this cart because stored provider does not exist"@,
            BusinessError::MissingToken => "Could not complete this cart because no token provided"@,
            BusinessError::UnknownPaymentProvider => "Unknown payment provider"@,
            BusinessError::InvalidPaymentStatus => "The payment is not in the correct status"@,
            BusinessError::MalformedNotification => "The notification could not be read"@,
        }
    }

    /// The refusal in words, for the user to read.
    pub fn message(&self) -> (m: String)
        ensures
            m@ == self.spec_message(),
    {
        match self {
            BusinessError::EmptyRequest => "Could not add to cart as no items provided".to_string(),
            BusinessError::InsufficientInventory => "Could not reserve tickets, not enough tickets are available".to_string(),
            BusinessError::ReleaseExceedsReserved => "Could not release the correct amount of tickets".to_string(),
            BusinessError::InvalidOrderStatus => "Could not complete this cart because it is not in the correct status".to_string(),
            BusinessError::AssetNotProvisioned => "Could not complete this checkout because the asset has not been assigned on the blockchain".to_string(),
            BusinessError::NotOwner => "This cart does not belong to you".to_string(),
            BusinessError::AuthorizationExpired => "The transfer authorization has expired".to_string(),
            BusinessError::CountMismatch => "The number of tickets does not match the transfer authorization".to_string(),
            BusinessError::PersistenceError => "Could not store the record".to_string(),
            BusinessError::NoResults => "No results".to_string(),
            BusinessError::Unauthorized => "Unauthorized".to_string(),
            BusinessError::CartNotFound => "No cart exists for user".to_string(),
            BusinessError::ItemNotInCart => "Cart does not contain order item".to_string(),
            BusinessError::NoDefaultPaymentMethod => "Could not complete this cart because user has no default payment method".to_string(),
            BusinessError::NoStoredPaymentMethod => "Could not complete this cart because stored provider does not exist".to_string(),
            BusinessError::MissingToken => "Could not complete this cart because no token provided".to_string(),
            BusinessError::UnknownPaymentProvider => "Unknown payment provider".to_string(),
            BusinessError::InvalidPaymentStatus => "The payment is not in the correct status".to_string(),
            BusinessError::MalformedNotification => "The notification could not be read".to_string(),
        }
    }
}

/// Any two refusals have different codes, so a code names its refusal.
pub proof fn lemma_codes_distinct(a: BusinessError, b: BusinessError)
    ensures
        a.spec_code() == b.spec_code() <==> a == b,
{
}

} // verus!
