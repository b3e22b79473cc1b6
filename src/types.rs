use vstd::prelude::*;

verus! {

/// An identity that can approve operations: an owner, a renter or the administrator.
pub type Principal = u64;

#[derive(Clone, Copy, Debug, PartialEq, Eq, Structural)]
pub enum CarStatus {
    Available,
    Rented,
}

/// A listed car, keyed by its owner (one car per owner).
#[derive(Clone, Copy, Debug, PartialEq, Eq, Structural)]
pub struct Car {
    pub owner: Principal,
    pub price_per_day: i128,
    pub car_status: CarStatus,
    /// The owner's escrow: credited at rental time, payable once the car is back.
    pub available_to_withdraw: i128,
}

/// An open rental of `owner`'s car by `renter`.
#[derive(Clone, Copy, Debug, PartialEq, Eq, Structural)]
pub struct Rental {
    pub renter: Principal,
    pub owner: Principal,
    pub total_days: u32,
    /// The owner's share of the deposit.
    pub amount: i128,
}

/// A car together with the rental that currently occupies it, if any.
#[derive(Clone, Copy, Debug, PartialEq, Eq, Structural)]
pub struct Listing {
    pub car: Car,
    pub rental: Option<Rental>,
}

/// The platform administrator's record.
#[derive(Clone, Copy, Debug, PartialEq, Eq, Structural)]
pub struct Admin {
    pub address: Principal,
    /// Flat fee charged on every rental.
    pub commission: i128,
    /// Commission accrued and not yet withdrawn.
    pub available_to_withdraw: i128,
}

/// Why an operation was rejected. A rejected operation changes nothing.
#[derive(Clone, Copy, Debug, PartialEq, Eq, Structural)]
pub enum Error {
    NotInitialized,
    AlreadyInitialized,
    Unauthorized,
    CarNotFound,
    CarAlreadyExists,
    CarAlreadyRented,
    CarStillRented,
    RentalNotFound,
    SelfRentalForbidden,
    SelfReturnForbidden,
    InvalidAmount,
    InvalidDuration,
    InvalidPrice,
    InvalidCommission,
    InsufficientFunds,
    InsufficientEscrow,
    ArithmeticOverflow,
    /// A car cannot be delisted while its owner still has escrow on it.
    EscrowNotEmpty,
}

/// A movement of tokens between a principal and the ledger's custody, which the
/// host performs once the operation has committed.
#[derive(Clone, Copy, Debug, PartialEq, Eq, Structural)]
pub enum Transfer {
    IntoCustody { from: Principal, amount: i128 },
    OutOfCustody { to: Principal, amount: i128 },
}

/// An entry for the host's append-only event log.
#[derive(Clone, Copy, Debug, PartialEq, Eq, Structural)]
pub enum Event {
    Rented { renter: Principal, owner: Principal, total_days: u32, amount: i128 },
    CarReturned { renter: Principal, owner: Principal },
    Payout { owner: Principal, amount: i128 },
    AdminPayout { admin: Principal, amount: i128 },
}

} // verus!
