use vstd::prelude::*;
use crate::types::{Car, CarStatus, Error, Listing, Principal};
use crate::table::{escrow_total, find_owner, lemma_find_owner, lemma_find_owner_at};
use crate::ledger::{lemma_listings_update, listing_wf, Ledger};

verus! {

/// In a well-formed ledger an owner's car is Rented exactly when a rental
/// record keyed by some renter and that owner exists.
pub proof fn law_rented_iff_rental(l: Ledger, owner: Principal)
    requires
        l.wf(),
    ensures
        (l.car(owner) matches Some(c) && c.car_status == CarStatus::Rented)
            <==> exists|renter: Principal| l.has_rental(renter, owner),
{
    lemma_find_owner(l.listings, owner);
    if let Some(i) = find_owner(l.listings, owner) {
        assert(listing_wf(l.listings[i]));
        if let Some(r) = l.listings[i].rental {
            assert(l.has_rental(r.renter, owner));
        }
    }
}

/// The funds in custody are exactly the owners' escrows plus the
/// administrator's. Every operation keeps the ledger well-formed, so this holds
/// after any sequence of operations.
pub proof fn law_conservation(l: Ledger)
    requires
        l.wf(),
    ensures
        l.contract_balance == escrow_total(l.listings) + l.admin_escrow(),
        l.contract_balance >= 0,
{
    crate::ledger::lemma_ledger_bounds(l);
}

/// Two payouts to the same owner that together ask for more than the escrow:
/// when the first succeeds, the second fails with `InsufficientEscrow`.
pub proof fn law_no_double_withdrawal(l: Ledger, owner: Principal, first: i128, second: i128)
    requires
        l.wf(),
        l.payout_outcome(owner, first, true) is Ok,
        first + second > l.car(owner).unwrap().available_to_withdraw,
    ensures
        l.payout_outcome(owner, first, true).unwrap().payout_outcome(owner, second, true)
            == Err::<Ledger, Error>(Error::InsufficientEscrow),
{
    lemma_find_owner(l.listings, owner);
    let i = find_owner(l.listings, owner).unwrap();
    let car = l.listings[i].car;
    assert(listing_wf(l.listings[i]));
    let paid = Listing {
        car: Car {
            owner: car.owner,
            price_per_day: car.price_per_day,
            car_status: car.car_status,
            available_to_withdraw: (car.available_to_withdraw - first) as i128,
        },
        rental: l.listings[i].rental,
    };
    let after = l.payout_outcome(owner, first, true).unwrap();
    assert(after.listings == l.listings.update(i, paid));
    lemma_listings_update(l.listings, i, paid);
    lemma_find_owner_at(after.listings, i);
}

} // verus!
