//! A peer-to-peer car-rental escrow ledger.
//!
//! Owners list cars, renters pay a deposit into escrow, a flat commission goes
//! to the platform administrator, and owners withdraw only once their car is back.
//! Every operation is a verified state transition of [`RentACar`]; the host
//! (authorization, token custody, event log, storage) lives outside the library
//! and hands results in as plain values.

mod types;
mod table;
mod ledger;
mod laws;

pub use types::{Admin, Car, CarStatus, Error, Event, Listing, Principal, Rental, Transfer};
pub use table::{escrow_total, find_owner, owners_unique};
pub use ledger::{listing_wf, settles, Ledger, RentACar};
pub use laws::{law_conservation, law_no_double_withdrawal, law_rented_iff_rental};
