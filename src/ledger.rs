use vstd::prelude::*;
use crate::types::{Admin, Car, CarStatus, Error, Event, Listing, Principal, Rental, Transfer};
use crate::table::{
    escrow_total, find_listing, find_owner, lemma_escrow_bound, lemma_find_owner, lemma_escrow_nonneg,
    lemma_escrow_prefix, lemma_escrow_remove, lemma_escrow_update, owners_unique,
};

verus! {

/// The abstract state of the ledger.
pub ghost struct Ledger {
    pub admin: Option<Admin>,
    /// Listed cars with their open rentals, at most one listing per owner.
    pub listings: Seq<Listing>,
    /// Total funds in the ledger's custody.
    pub contract_balance: i128,
}

/// A listing is consistent: positive price, non-negative escrow, and a car is
/// Rented exactly when a rental by someone other than its owner occupies it.
pub open spec fn listing_wf(l: Listing) -> bool {
    &&& l.car.price_per_day > 0
    &&& l.car.available_to_withdraw >= 0
    &&& (l.car.car_status == CarStatus::Rented <==> l.rental is Some)
    &&& match l.rental {
        Some(r) => r.owner == l.car.owner && r.renter != r.owner && r.total_days > 0 && r.amount > 0,
        None => true,
    }
}

/// The state that an operation leads to, `Ok`, or the error that rejects it;
/// a rejected operation leaves the ledger as it was.
pub open spec fn settles<T>(outcome: Result<Ledger, Error>, before: Ledger, after: Ledger, r: Result<T, Error>) -> bool {
    match outcome {
        Ok(l) => r is Ok && after == l,
        Err(e) => r == Err::<T, Error>(e) && after == before,
    }
}

impl Ledger {
    /// A ledger with no administrator, no cars and nothing in custody.
    pub open spec fn empty() -> Ledger {
        Ledger { admin: None, listings: Seq::empty(), contract_balance: 0 }
    }

    /// `owner`'s car, if one is listed.
    pub open spec fn car(self, owner: Principal) -> Option<Car> {
        match find_owner(self.listings, owner) {
            Some(i) => Some(self.listings[i].car),
            None => None,
        }
    }

    /// The open rental of `owner`'s car.
    pub open spec fn rental_of(self, owner: Principal) -> Option<Rental> {
        match find_owner(self.listings, owner) {
            Some(i) => self.listings[i].rental,
            None => None,
        }
    }

    /// A rental record keyed by (`renter`, `owner`) exists.
    pub open spec fn has_rental(self, renter: Principal, owner: Principal) -> bool {
        match self.rental_of(owner) {
            Some(r) => r.renter == renter,
            None => false,
        }
    }

    /// The administrator's accrued commission; 0 before initialization.
    pub open spec fn admin_escrow(self) -> int {
        match self.admin {
            Some(a) => a.available_to_withdraw as int,
            None => 0,
        }
    }

    /// What `owner` may withdraw now: the escrow of a car that is back, else 0.
    pub open spec fn owner_available(self, owner: Principal) -> i128 {
        match self.car(owner) {
            Some(c) => if c.car_status == CarStatus::Available { c.available_to_withdraw } else { 0 },
            None => 0,
        }
    }

    /// Listings are unique by owner and each is consistent, the administrator's
    /// figures are non-negative, and custody holds exactly the escrows.
    pub open spec fn wf(self) -> bool {
        &&& listings_wf(self.listings)
        &&& match self.admin {
            Some(a) => a.commission >= 0 && a.available_to_withdraw >= 0,
            None => true,
        }
        &&& self.contract_balance == escrow_total(self.listings) + self.admin_escrow()
    }

    /// Opening a rental: checks in order authorization, the car, its status,
    /// self-rental, duration, amount, initialization, overflow and the renter's
    /// funds; then credits the owner's escrow with `amount` and the
    /// administrator's with the flat commission, and marks the car Rented.
    pub open spec fn rental_outcome(
        self,
        renter: Principal,
        owner: Principal,
        total_days: u32,
        amount: i128,
        authorized: bool,
        renter_balance: i128,
    ) -> Result<Ledger, Error> {
        if !authorized {
            Err(Error::Unauthorized)
        } else {
            match find_owner(self.listings, owner) {
                None => Err(Error::CarNotFound),
                Some(i) => {
                    let car = self.listings[i].car;
                    if car.car_status == CarStatus::Rented {
                        Err(Error::CarAlreadyRented)
                    } else if renter == owner {
                        Err(Error::SelfRentalForbidden)
                    } else if total_days == 0 {
                        Err(Error::InvalidDuration)
                    } else if amount <= 0 {
                        Err(Error::InvalidAmount)
                    } else {
                        match self.admin {
                            None => Err(Error::NotInitialized),
                            Some(admin) => {
                                let charge = amount + admin.commission;
                                if self.contract_balance + charge > i128::MAX {
                                    Err(Error::ArithmeticOverflow)
                                } else if renter_balance < charge {
                                    Err(Error::InsufficientFunds)
                                } else {
                                    let rented = Car {
                                        owner: car.owner,
                                        price_per_day: car.price_per_day,
                                        car_status: CarStatus::Rented,
                                        available_to_withdraw: (car.available_to_withdraw + amount) as i128,
                                    };
                                    let rental = Rental { renter, owner, total_days, amount };
                                    Ok(Ledger {
                                        admin: Some(Admin {
                                            address: admin.address,
                                            commission: admin.commission,
                                            available_to_withdraw:
                                                (admin.available_to_withdraw + admin.commission) as i128,
                                        }),
                                        listings: self.listings.update(i, Listing { car: rented, rental: Some(rental) }),
                                        contract_balance: (self.contract_balance + charge) as i128,
                                    })
                                }
                            },
                        }
                    }
                },
            }
        }
    }

    /// Closing a rental: the car becomes Available and the rental record goes;
    /// escrows and balance stay.
    pub open spec fn return_outcome(self, renter: Principal, owner: Principal, authorized: bool) -> Result<Ledger, Error> {
        if !authorized {
            Err(Error::Unauthorized)
        } else {
            match find_owner(self.listings, owner) {
                None => Err(Error::CarNotFound),
                Some(i) => {
                    let car = self.listings[i].car;
                    if car.car_status != CarStatus::Rented || !self.has_rental(renter, owner) {
                        Err(Error::RentalNotFound)
                    } else if renter == owner {
                        Err(Error::SelfReturnForbidden)
                    } else {
                        let returned = Car {
                            owner: car.owner,
                            price_per_day: car.price_per_day,
                            car_status: CarStatus::Available,
                            available_to_withdraw: car.available_to_withdraw,
                        };
                        Ok(Ledger {
                            admin: self.admin,
                            listings: self.listings.update(i, Listing { car: returned, rental: None }),
                            contract_balance: self.contract_balance,
                        })
                    }
                },
            }
        }
    }

    /// Paying `amount` of an owner's escrow out of custody.
    pub open spec fn payout_outcome(self, owner: Principal, amount: i128, authorized: bool) -> Result<Ledger, Error> {
        if !authorized {
            Err(Error::Unauthorized)
        } else {
            match find_owner(self.listings, owner) {
                None => Err(Error::CarNotFound),
                Some(i) => {
                    let car = self.listings[i].car;
                    if car.car_status == CarStatus::Rented {
                        Err(Error::CarStillRented)
                    } else if amount <= 0 {
                        Err(Error::InvalidAmount)
                    } else if amount > car.available_to_withdraw {
                        Err(Error::InsufficientEscrow)
                    } else {
                        let paid = Car {
                            owner: car.owner,
                            price_per_day: car.price_per_day,
                            car_status: car.car_status,
                            available_to_withdraw: (car.available_to_withdraw - amount) as i128,
                        };
                        Ok(Ledger {
                            admin: self.admin,
                            listings: self.listings.update(i, Listing { car: paid, rental: self.listings[i].rental }),
                            contract_balance: (self.contract_balance - amount) as i128,
                        })
                    }
                },
            }
        }
    }

    /// Listing a car: a new Available car with no escrow.
    pub open spec fn add_car_outcome(self, owner: Principal, price_per_day: i128, authorized: bool) -> Result<Ledger, Error> {
        if !authorized {
            Err(Error::Unauthorized)
        } else if price_per_day <= 0 {
            Err(Error::InvalidPrice)
        } else if find_owner(self.listings, owner) is Some {
            Err(Error::CarAlreadyExists)
        } else {
            let car = Car { owner, price_per_day, car_status: CarStatus::Available, available_to_withdraw: 0 };
            Ok(Ledger {
                admin: self.admin,
                listings: self.listings.push(Listing { car, rental: None }),
                contract_balance: self.contract_balance,
            })
        }
    }

    /// Delisting a car that is Available and has no escrow left.
    pub open spec fn remove_car_outcome(self, owner: Principal, authorized: bool) -> Result<Ledger, Error> {
        if !authorized {
            Err(Error::Unauthorized)
        } else {
            match find_owner(self.listings, owner) {
                None => Err(Error::CarNotFound),
                Some(i) => {
                    let car = self.listings[i].car;
                    if car.car_status == CarStatus::Rented {
                        Err(Error::CarStillRented)
                    } else if car.available_to_withdraw != 0 {
                        Err(Error::EscrowNotEmpty)
                    } else {
                        Ok(Ledger {
                            admin: self.admin,
                            listings: self.listings.remove(i),
                            contract_balance: self.contract_balance,
                        })
                    }
                },
            }
        }
    }

    /// Recording the administrator, once.
    pub open spec fn initialize_outcome(self, admin: Principal) -> Result<Ledger, Error> {
        if self.admin is Some {
            Err(Error::AlreadyInitialized)
        } else {
            Ok(Ledger {
                admin: Some(Admin { address: admin, commission: 0, available_to_withdraw: 0 }),
                listings: self.listings,
                contract_balance: self.contract_balance,
            })
        }
    }

    /// Replacing the flat commission; settled rentals keep what they paid.
    pub open spec fn set_commission_outcome(self, commission: i128, authorized: bool) -> Result<Ledger, Error> {
        match self.admin {
            None => Err(Error::NotInitialized),
            Some(a) => if !authorized {
                Err(Error::Unauthorized)
            } else if commission < 0 {
                Err(Error::InvalidCommission)
            } else {
                Ok(Ledger {
                    admin: Some(Admin { address: a.address, commission, available_to_withdraw: a.available_to_withdraw }),
                    listings: self.listings,
                    contract_balance: self.contract_balance,
                })
            },
        }
    }

    /// Paying `amount` of the accrued commission out of custody.
    pub open spec fn admin_withdraw_outcome(self, amount: i128, authorized: bool) -> Result<Ledger, Error> {
        match self.admin {
            None => Err(Error::NotInitialized),
            Some(a) => if !authorized {
                Err(Error::Unauthorized)
            } else if amount <= 0 {
                Err(Error::InvalidAmount)
            } else if amount > a.available_to_withdraw {
                Err(Error::InsufficientEscrow)
            } else {
                Ok(Ledger {
                    admin: Some(Admin {
                        address: a.address,
                        commission: a.commission,
                        available_to_withdraw: (a.available_to_withdraw - amount) as i128,
                    }),
                    listings: self.listings,
                    contract_balance: (self.contract_balance - amount) as i128,
                })
            },
        }
    }
}

/// Listings that are unique by owner and consistent one by one.
pub open spec fn listings_wf(s: Seq<Listing>) -> bool {
    &&& owners_unique(s)
    &&& forall|i: int| 0 <= i < s.len() ==> #[trigger] listing_wf(s[i])
}

/// Replacing a listing by a consistent one of the same owner keeps the listings well-formed.
pub proof fn lemma_listings_update(s: Seq<Listing>, i: int, v: Listing)
    requires
        listings_wf(s),
        0 <= i < s.len(),
        listing_wf(v),
        v.car.owner == s[i].car.owner,
    ensures
        listings_wf(s.update(i, v)),
{
    let t = s.update(i, v);
    assert forall|k: int| 0 <= k < t.len() implies #[trigger] listing_wf(t[k]) by {
        if k != i {
            assert(listing_wf(s[k]));
        }
    }
}

/// Adding a consistent listing of a new owner keeps the listings well-formed.
pub proof fn lemma_listings_push(s: Seq<Listing>, v: Listing)
    requires
        listings_wf(s),
        listing_wf(v),
        forall|k: int| 0 <= k < s.len() ==> s[k].car.owner != v.car.owner,
    ensures
        listings_wf(s.push(v)),
{
    let t = s.push(v);
    assert forall|k: int| 0 <= k < t.len() implies #[trigger] listing_wf(t[k]) by {
        if k < s.len() {
            assert(listing_wf(s[k]));
        }
    }
}

/// Removing a listing keeps the listings well-formed.
pub proof fn lemma_listings_remove(s: Seq<Listing>, i: int)
    requires
        listings_wf(s),
        0 <= i < s.len(),
    ensures
        listings_wf(s.remove(i)),
{
    let t = s.remove(i);
    assert forall|k: int| 0 <= k < t.len() implies #[trigger] listing_wf(t[k]) by {
        if k < i {
            assert(listing_wf(s[k]));
        } else {
            assert(listing_wf(s[k + 1]));
        }
    }
    assert forall|a: int, b: int| 0 <= a < t.len() && 0 <= b < t.len() && a != b
        implies t[a].car.owner != t[b].car.owner by {
        let sa = if a < i { a } else { a + 1 };
        let sb = if b < i { b } else { b + 1 };
        assert(t[a] == s[sa] && t[b] == s[sb]);
    }
}

/// Every escrow of a well-formed ledger is non-negative and covered by its balance.
pub proof fn lemma_ledger_bounds(l: Ledger)
    requires
        l.wf(),
    ensures
        l.admin_escrow() >= 0,
        escrow_total(l.listings) >= 0,
        l.contract_balance >= l.admin_escrow(),
        forall|i: int| 0 <= i < l.listings.len()
            ==> 0 <= #[trigger] l.listings[i].car.available_to_withdraw <= l.contract_balance,
{
    assert forall|k: int| 0 <= k < l.listings.len()
        implies l.listings[k].car.available_to_withdraw >= 0 by {
        assert(listing_wf(l.listings[k]));
    }
    lemma_escrow_nonneg(l.listings);
    assert forall|i: int| 0 <= i < l.listings.len()
        implies 0 <= #[trigger] l.listings[i].car.available_to_withdraw <= l.contract_balance by {
        lemma_escrow_bound(l.listings, i);
    }
}

/// The ledger: the admin record, the listed cars with their rentals, and the
/// balance held in custody.
pub struct RentACar {
    admin: Option<Admin>,
    listings: Vec<Listing>,
    contract_balance: i128,
}

impl View for RentACar {
    type V = Ledger;

    closed spec fn view(&self) -> Ledger {
        Ledger { admin: self.admin, listings: self.listings@, contract_balance: self.contract_balance }
    }
}

impl RentACar {
    /// An empty ledger with no administrator yet.
    pub fn new() -> (r: RentACar)
        ensures
            r@ == Ledger::empty(),
            r@.wf(),
    {
        RentACar { admin: None, listings: Vec::new(), contract_balance: 0 }
    }

    /// Opens a rental of `owner`'s car by `renter`. `authorized` is the
    /// authorization oracle's answer for `renter`; `renter_balance` is what the
    /// renter holds of the asset. On success the host pulls the returned
    /// transfer into custody and logs the returned event.
    pub fn rental(
        &mut self,
        renter: Principal,
        owner: Principal,
        total_days: u32,
        amount: i128,
        authorized: bool,
        renter_balance: i128,
    ) -> (r: Result<(Transfer, Event), Error>)
        requires
            old(self)@.wf(),
        ensures
            final(self)@.wf(),
            settles(
                old(self)@.rental_outcome(renter, owner, total_days, amount, authorized, renter_balance),
                old(self)@,
                final(self)@,
                r,
            ),
            match r {
                Ok((t, e)) => t == (Transfer::IntoCustody {
                    from: renter,
                    amount: (amount + old(self)@.admin.unwrap().commission) as i128,
                }) && e == (Event::Rented { renter, owner, total_days, amount }),
                Err(_) => true,
            },
    {
        if !authorized {
            return Err(Error::Unauthorized);
        }
        let i = match find_listing(&self.listings, owner) {
            Some(i) => i,
            None => return Err(Error::CarNotFound),
        };
        proof {
            lemma_find_owner(self.listings@, owner);
        }
        let listing = self.listings[i];
        if listing.car.car_status == CarStatus::Rented {
            return Err(Error::CarAlreadyRented);
        }
        if renter == owner {
            return Err(Error::SelfRentalForbidden);
        }
        if total_days == 0 {
            return Err(Error::InvalidDuration);
        }
        if amount <= 0 {
            return Err(Error::InvalidAmount);
        }
        let admin = match self.admin {
            Some(a) => a,
            None => return Err(Error::NotInitialized),
        };
        proof {
            lemma_ledger_bounds(self@);
        }
        let charge = match amount.checked_add(admin.commission) {
            Some(c) => c,
            None => return Err(Error::ArithmeticOverflow),
        };
        let balance = match self.contract_balance.checked_add(charge) {
            Some(b) => b,
            None => return Err(Error::ArithmeticOverflow),
        };
        if renter_balance < charge {
            return Err(Error::InsufficientFunds);
        }
        let car = Car {
            owner: listing.car.owner,
            price_per_day: listing.car.price_per_day,
            car_status: CarStatus::Rented,
            available_to_withdraw: listing.car.available_to_withdraw + amount,
        };
        let updated = Listing { car, rental: Some(Rental { renter, owner, total_days, amount }) };
        proof {
            assert(listing_wf(self.listings@[i as int]));
            lemma_escrow_update(self.listings@, i as int, updated);
            lemma_listings_update(self.listings@, i as int, updated);
        }
        self.listings.set(i, updated);
        self.admin = Some(Admin {
            address: admin.address,
            commission: admin.commission,
            available_to_withdraw: admin.available_to_withdraw + admin.commission,
        });
        self.contract_balance = balance;
        Ok((Transfer::IntoCustody { from: renter, amount: charge }, Event::Rented { renter, owner, total_days, amount }))
    }

    /// Closes `renter`'s rental of `owner`'s car; `authorized` is the oracle's
    /// answer for `renter`. No funds move: the owner's escrow becomes payable.
    pub fn return_car(&mut self, renter: Principal, owner: Principal, authorized: bool) -> (r: Result<Event, Error>)
        requires
            old(self)@.wf(),
        ensures
            final(self)@.wf(),
            settles(old(self)@.return_outcome(renter, owner, authorized), old(self)@, final(self)@, r),
            r is Ok ==> r == Ok::<Event, Error>(Event::CarReturned { renter, owner }),
    {
        if !authorized {
            return Err(Error::Unauthorized);
        }
        let i = match find_listing(&self.listings, owner) {
            Some(i) => i,
            None => return Err(Error::CarNotFound),
        };
        proof {
            lemma_find_owner(self.listings@, owner);
        }
        let listing = self.listings[i];
        let rented_by_renter = match listing.rental {
            Some(rental) => rental.renter == renter,
            None => false,
        };
        if listing.car.car_status != CarStatus::Rented || !rented_by_renter {
            return Err(Error::RentalNotFound);
        }
        if renter == owner {
            return Err(Error::SelfReturnForbidden);
        }
        let car = Car {
            owner: listing.car.owner,
            price_per_day: listing.car.price_per_day,
            car_status: CarStatus::Available,
            available_to_withdraw: listing.car.available_to_withdraw,
        };
        let updated = Listing { car, rental: None };
        proof {
            assert(listing_wf(self.listings@[i as int]));
            lemma_escrow_update(self.listings@, i as int, updated);
            lemma_listings_update(self.listings@, i as int, updated);
        }
        self.listings.set(i, updated);
        Ok(Event::CarReturned { renter, owner })
    }

    /// Pays `amount` of `owner`'s escrow out of custody; `authorized` is the
    /// oracle's answer for `owner`. Only a car that is back can be paid out.
    pub fn payout_owner(&mut self, owner: Principal, amount: i128, authorized: bool) -> (r: Result<(Transfer, Event), Error>)
        requires
            old(self)@.wf(),
        ensures
            final(self)@.wf(),
            settles(old(self)@.payout_outcome(owner, amount, authorized), old(self)@, final(self)@, r),
            r is Ok ==> r == Ok::<(Transfer, Event), Error>(
                (Transfer::OutOfCustody { to: owner, amount }, Event::Payout { owner, amount }),
            ),
    {
        if !authorized {
            return Err(Error::Unauthorized);
        }
        let i = match find_listing(&self.listings, owner) {
            Some(i) => i,
            None => return Err(Error::CarNotFound),
        };
        proof {
            lemma_find_owner(self.listings@, owner);
            lemma_ledger_bounds(self@);
        }
        let listing = self.listings[i];
        if listing.car.car_status == CarStatus::Rented {
            return Err(Error::CarStillRented);
        }
        if amount <= 0 {
            return Err(Error::InvalidAmount);
        }
        if amount > listing.car.available_to_withdraw {
            return Err(Error::InsufficientEscrow);
        }
        let car = Car {
            owner: listing.car.owner,
            price_per_day: listing.car.price_per_day,
            car_status: listing.car.car_status,
            available_to_withdraw: listing.car.available_to_withdraw - amount,
        };
        let updated = Listing { car, rental: listing.rental };
        proof {
            assert(listing_wf(self.listings@[i as int]));
            lemma_escrow_update(self.listings@, i as int, updated);
            lemma_listings_update(self.listings@, i as int, updated);
        }
        self.listings.set(i, updated);
        self.contract_balance = self.contract_balance - amount;
        Ok((Transfer::OutOfCustody { to: owner, amount }, Event::Payout { owner, amount }))
    }

    /// Lists a car for `owner`; `authorized` is the oracle's answer for `owner`.
    pub fn add_car(&mut self, owner: Principal, price_per_day: i128, authorized: bool) -> (r: Result<(), Error>)
        requires
            old(self)@.wf(),
        ensures
            final(self)@.wf(),
            settles(old(self)@.add_car_outcome(owner, price_per_day, authorized), old(self)@, final(self)@, r),
    {
        if !authorized {
            return Err(Error::Unauthorized);
        }
        if price_per_day <= 0 {
            return Err(Error::InvalidPrice);
        }
        if find_listing(&self.listings, owner).is_some() {
            return Err(Error::CarAlreadyExists);
        }
        let listing = Listing {
            car: Car { owner, price_per_day, car_status: CarStatus::Available, available_to_withdraw: 0 },
            rental: None,
        };
        proof {
            lemma_find_owner(self.listings@, owner);
            lemma_listings_push(self.listings@, listing);
            assert(self.listings@.push(listing).drop_last() =~= self.listings@);
        }
        self.listings.push(listing);
        Ok(())
    }

    /// Delists `owner`'s car; `authorized` is the oracle's answer for `owner`.
    /// A rented car, or one with escrow left on it, stays listed.
    pub fn remove_car(&mut self, owner: Principal, authorized: bool) -> (r: Result<(), Error>)
        requires
            old(self)@.wf(),
        ensures
            final(self)@.wf(),
            settles(old(self)@.remove_car_outcome(owner, authorized), old(self)@, final(self)@, r),
    {
        if !authorized {
            return Err(Error::Unauthorized);
        }
        let i = match find_listing(&self.listings, owner) {
            Some(i) => i,
            None => return Err(Error::CarNotFound),
        };
        proof {
            lemma_find_owner(self.listings@, owner);
        }
        let listing = self.listings[i];
        if listing.car.car_status == CarStatus::Rented {
            return Err(Error::CarStillRented);
        }
        if listing.car.available_to_withdraw != 0 {
            return Err(Error::EscrowNotEmpty);
        }
        proof {
            lemma_escrow_remove(self.listings@, i as int);
            lemma_listings_remove(self.listings@, i as int);
        }
        self.listings.remove(i);
        Ok(())
    }

    /// Records `admin` as the administrator, with no commission yet.
    pub fn initialize(&mut self, admin: Principal) -> (r: Result<(), Error>)
        requires
            old(self)@.wf(),
        ensures
            final(self)@.wf(),
            settles(old(self)@.initialize_outcome(admin), old(self)@, final(self)@, r),
    {
        if self.admin.is_some() {
            return Err(Error::AlreadyInitialized);
        }
        self.admin = Some(Admin { address: admin, commission: 0, available_to_withdraw: 0 });
        Ok(())
    }

    /// Sets the flat commission charged on later rentals; `authorized` is the
    /// oracle's answer for the administrator.
    pub fn set_admin_commission(&mut self, commission: i128, authorized: bool) -> (r: Result<(), Error>)
        requires
            old(self)@.wf(),
        ensures
            final(self)@.wf(),
            settles(old(self)@.set_commission_outcome(commission, authorized), old(self)@, final(self)@, r),
    {
        let admin = match self.admin {
            Some(a) => a,
            None => return Err(Error::NotInitialized),
        };
        if !authorized {
            return Err(Error::Unauthorized);
        }
        if commission < 0 {
            return Err(Error::InvalidCommission);
        }
        self.admin = Some(Admin { address: admin.address, commission, available_to_withdraw: admin.available_to_withdraw });
        Ok(())
    }

    /// Pays `amount` of the accrued commission out of custody to the
    /// administrator; `authorized` is the oracle's answer for the administrator.
    pub fn withdraw_admin_commission(&mut self, amount: i128, authorized: bool) -> (r: Result<(Transfer, Event), Error>)
        requires
            old(self)@.wf(),
        ensures
            final(self)@.wf(),
            settles(old(self)@.admin_withdraw_outcome(amount, authorized), old(self)@, final(self)@, r),
            r is Ok ==> r == Ok::<(Transfer, Event), Error>((
                Transfer::OutOfCustody { to: old(self)@.admin.unwrap().address, amount },
                Event::AdminPayout { admin: old(self)@.admin.unwrap().address, amount },
            )),
    {
        let admin = match self.admin {
            Some(a) => a,
            None => return Err(Error::NotInitialized),
        };
        if !authorized {
            return Err(Error::Unauthorized);
        }
        if amount <= 0 {
            return Err(Error::InvalidAmount);
        }
        if amount > admin.available_to_withdraw {
            return Err(Error::InsufficientEscrow);
        }
        proof {
            lemma_ledger_bounds(self@);
        }
        self.admin = Some(Admin {
            address: admin.address,
            commission: admin.commission,
            available_to_withdraw: admin.available_to_withdraw - amount,
        });
        self.contract_balance = self.contract_balance - amount;
        Ok((
            Transfer::OutOfCustody { to: admin.address, amount },
            Event::AdminPayout { admin: admin.address, amount },
        ))
    }
    /// What `owner` may withdraw now: 0 when no car is listed or the car is
    /// still rented, whatever its escrow; otherwise the car's escrow.
    pub fn get_owner_available_to_withdraw(&self, owner: Principal) -> (r: i128)
        requires
            self@.wf(),
        ensures
            r == self@.owner_available(owner),
            self@.car(owner) is None ==> r == 0,
            (self@.car(owner) matches Some(c) && c.car_status == CarStatus::Rented) ==> r == 0,
    {
        match find_listing(&self.listings, owner) {
            None => 0,
            Some(i) => {
                proof {
                    lemma_find_owner(self.listings@, owner);
                }
                let car = self.listings[i].car;
                if car.car_status != CarStatus::Available {
                    0
                } else {
                    car.available_to_withdraw
                }
            },
        }
    }

    /// The administrator's accrued commission; 0 before initialization.
    pub fn get_admin_available_to_withdraw(&self) -> (r: i128)
        ensures
            r == self@.admin_escrow(),
    {
        match self.admin {
            Some(a) => a.available_to_withdraw,
            None => 0,
        }
    }

    /// The status of `owner`'s car.
    pub fn get_car_status(&self, owner: Principal) -> (r: Result<CarStatus, Error>)
        requires
            self@.wf(),
        ensures
            match self@.car(owner) {
                Some(c) => r == Ok::<CarStatus, Error>(c.car_status),
                None => r == Err::<CarStatus, Error>(Error::CarNotFound),
            },
    {
        match self.get_car(owner) {
            Some(car) => Ok(car.car_status),
            None => Err(Error::CarNotFound),
        }
    }

    /// `owner`'s car record.
    pub fn get_car(&self, owner: Principal) -> (r: Option<Car>)
        requires
            self@.wf(),
        ensures
            r == self@.car(owner),
    {
        match find_listing(&self.listings, owner) {
            None => None,
            Some(i) => {
                proof {
                    lemma_find_owner(self.listings@, owner);
                }
                Some(self.listings[i].car)
            },
        }
    }

    /// Whether `renter` currently rents `owner`'s car.
    pub fn has_rental(&self, renter: Principal, owner: Principal) -> (r: bool)
        requires
            self@.wf(),
        ensures
            r == self@.has_rental(renter, owner),
    {
        match find_listing(&self.listings, owner) {
            None => false,
            Some(i) => {
                proof {
                    lemma_find_owner(self.listings@, owner);
                }
                match self.listings[i].rental {
                    Some(rental) => rental.renter == renter,
                    None => false,
                }
            },
        }
    }

    /// The funds held in custody.
    pub fn contract_balance(&self) -> (r: i128)
        ensures
            r == self@.contract_balance,
    {
        self.contract_balance
    }

    /// The administrator's record.
    pub fn get_admin(&self) -> (r: Option<Admin>)
        ensures
            r == self@.admin,
    {
        self.admin
    }
    /// Rebuilds a ledger from stored parts; `None` unless they form a
    /// well-formed ledger.
    pub fn restore(admin: Option<Admin>, listings: Vec<Listing>, contract_balance: i128) -> (r: Option<RentACar>)
        ensures
            (r is Some) == (Ledger { admin, listings: listings@, contract_balance }).wf(),
            r matches Some(l) ==> l@ == (Ledger { admin, listings: listings@, contract_balance }),
    {
        let model = Ghost(Ledger { admin, listings: listings@, contract_balance });
        let n = listings.len();
        let mut i: usize = 0;
        while i < n
            invariant
                n == listings@.len(),
                model@ == (Ledger { admin, listings: listings@, contract_balance }),
                i <= n,
                forall|a: int, b: int| 0 <= a < i && 0 <= b < n && a != b
                    ==> listings@[a].car.owner != listings@[b].car.owner,
                forall|a: int| 0 <= a < i ==> #[trigger] listing_wf(listings@[a]),
            decreases n - i,
        {
            let l = listings[i];
            let consistent = l.car.price_per_day > 0 && l.car.available_to_withdraw >= 0 && match l.rental {
                Some(rent) => l.car.car_status == CarStatus::Rented && rent.owner == l.car.owner
                    && rent.renter != rent.owner && rent.total_days > 0 && rent.amount > 0,
                None => l.car.car_status == CarStatus::Available,
            };
            if !consistent {
                proof {
                    assert(!listing_wf(model@.listings[i as int]));
                }
                return None;
            }
            let mut j: usize = 0;
            while j < n
                invariant
                    n == listings@.len(),
                    model@ == (Ledger { admin, listings: listings@, contract_balance }),
                    i < n,
                    j <= n,
                    l == listings@[i as int],
                    listing_wf(l),
                    forall|a: int, b: int| 0 <= a < i && 0 <= b < n && a != b
                        ==> listings@[a].car.owner != listings@[b].car.owner,
                    forall|a: int| 0 <= a < i ==> #[trigger] listing_wf(listings@[a]),
                    forall|b: int| 0 <= b < j && b != i ==> listings@[i as int].car.owner != listings@[b].car.owner,
                decreases n - j,
            {
                if j != i && listings[j].car.owner == l.car.owner {
                    proof {
                        assert(!owners_unique(model@.listings));
                    }
                    return None;
                }
                j = j + 1;
            }
            i = i + 1;
        }
        let admin_escrow: i128 = match admin {
            Some(a) => {
                if a.commission < 0 || a.available_to_withdraw < 0 {
                    return None;
                }
                a.available_to_withdraw
            },
            None => 0,
        };
        proof {
            assert forall|k: int| 0 <= k < n implies listings@[k].car.available_to_withdraw >= 0 by {
                assert(listing_wf(listings@[k]));
            }
        }
        let mut total: i128 = admin_escrow;
        let mut k: usize = 0;
        while k < n
            invariant
                n == listings@.len(),
                model@ == (Ledger { admin, listings: listings@, contract_balance }),
                k <= n,
                total == escrow_total(listings@.take(k as int)) + model@.admin_escrow(),
                admin_escrow == model@.admin_escrow(),
                admin_escrow >= 0,
                forall|j: int| 0 <= j < n ==> listings@[j].car.available_to_withdraw >= 0,
            decreases n - k,
        {
            proof {
                assert(listings@.take(k as int + 1).drop_last() =~= listings@.take(k as int));
                lemma_escrow_nonneg(listings@.take(k as int));
            }
            total = match total.checked_add(listings[k].car.available_to_withdraw) {
                Some(t) => t,
                None => {
                    proof {
                        lemma_escrow_prefix(listings@, k as int + 1);
                        lemma_escrow_nonneg(listings@);
                    }
                    return None;
                },
            };
            k = k + 1;
        }
        proof {
            assert(listings@.take(n as int) =~= listings@);
        }
        if total != contract_balance {
            return None;
        }
        Some(RentACar { admin, listings, contract_balance })
    }

    /// The parts that [`RentACar::restore`] takes back.
    pub fn into_parts(self) -> (r: (Option<Admin>, Vec<Listing>, i128))
        ensures
            r.0 == self@.admin,
            r.1@ == self@.listings,
            r.2 == self@.contract_balance,
    {
        (self.admin, self.listings, self.contract_balance)
    }
}

} // verus!
