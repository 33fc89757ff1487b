//! A box office for uniquely owned, time-limited tickets: the inventory
//! ledger, carts and orders, payment processing, checkout, ownership
//! transfers and the handling of payment notifications.
//!
//! Every function of this crate is verified against the contract written on
//! it, and none of them panics; the three calls into other crates, one into
//! itertools and two into uuid, are marked as trusted where they stand.
//! Identifiers are 128-bit numbers and instants
//! are whole seconds since the Unix epoch. Nothing here reads a clock, draws a
//! random number or talks to the outside: the caller says what time it is,
//! and performs what a checkout asks of the payment provider and of the
//! external ledger.
//!
//! - [`inventory`] is the ledger of ticket units and [`ledger_laws`] states
//!   what holds of it over any run of requests.
//! - [`orders`], [`cart`] and [`store`] hold the carts and what adding to
//!   and removing from them comes to.
//! - [`payment_processor`], [`payments`], [`checkout`] and [`settlement`]
//!   take an order from draft to paid and its tickets to the buyer.
//! - [`transfers`] lets an owner pass tickets on.
//! - [`ipns`] and [`process_payment_ipn`] take in and apply what payment
//!   providers report out of band; [`globee`] and [`globee_processor`] are one
//!   such provider.

pub mod assets;
pub mod cart;
pub mod checkout;
pub mod errors;
pub mod globee;
pub mod globee_processor;
pub mod identifiers;
pub mod inventory;
pub mod ipns;
pub mod ledger_laws;
pub mod orders;
pub mod payment_processor;
pub mod payments;
pub mod process_payment_ipn;
pub mod records;
pub mod service_locator;
pub mod settlement;
pub mod store;
pub mod transfers;
pub mod wallets;
