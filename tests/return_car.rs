use rent_a_car::{CarStatus, Error, Event, Principal, RentACar};

const ADMIN: Principal = 100;

fn setup() -> RentACar {
    let mut contract = RentACar::new();
    contract.initialize(ADMIN).unwrap();
    contract
}

#[test]
fn test_return_car_successfully() {
    let mut contract = setup();
    let owner: Principal = 1;
    let renter: Principal = 2;
    let price_per_day = 1500_i128;
    let total_days = 3;
    let amount = 4500_i128;
    let amount_mint = 10_000_i128;

    contract.add_car(owner, price_per_day, true).unwrap();
    contract.rental(renter, owner, total_days, amount, true, amount_mint).unwrap();

    let car = contract.get_car(owner).unwrap();
    assert_eq!(car.car_status, CarStatus::Rented);
    assert_eq!(contract.has_rental(renter, owner), true);

    let event = contract.return_car(renter, owner, true).unwrap();

    let car = contract.get_car(owner).unwrap();
    assert_eq!(car.car_status, CarStatus::Available);
    assert_eq!(contract.has_rental(renter, owner), false);
    assert_eq!(event, Event::CarReturned { renter, owner });
}

#[test]
fn test_return_car_without_rental_fails() {
    let mut contract = setup();
    let owner: Principal = 1;
    let renter: Principal = 2;
    assert_eq!(contract.return_car(renter, owner, true), Err(Error::CarNotFound));
}

#[test]
fn test_return_car_when_car_not_rented_fails() {
    let mut contract = setup();
    let owner: Principal = 1;
    let renter: Principal = 2;
    contract.add_car(owner, 1500, true).unwrap();
    assert_eq!(contract.return_car(renter, owner, true), Err(Error::RentalNotFound));
}

#[test]
fn test_return_car_self_return_fails() {
    let mut contract = setup();
    let owner: Principal = 1;
    contract.add_car(owner, 1500, true).unwrap();
    // Renting one's own car is refused before anything happens, so there is
    // nothing to return either.
    assert_eq!(contract.rental(owner, owner, 3, 4500, true, 10_000), Err(Error::SelfRentalForbidden));
    assert_eq!(contract.return_car(owner, owner, true), Err(Error::RentalNotFound));
    assert_eq!(contract.contract_balance(), 0);
}

#[test]
fn return_car_test_unauthorized_user_cannot_return_car() {
    let mut contract = setup();
    let owner: Principal = 1;
    let renter: Principal = 2;
    let unauthorized: Principal = 3;
    contract.add_car(owner, 1500, true).unwrap();
    contract.rental(renter, owner, 3, 4500, true, 10_000).unwrap();
    assert_eq!(contract.return_car(unauthorized, owner, true), Err(Error::RentalNotFound));
    assert_eq!(contract.get_car_status(owner), Ok(CarStatus::Rented));
}

#[test]
fn test_unauthorized_user_cannot_return_car() {
    let mut contract = setup();
    let owner: Principal = 1;
    let renter: Principal = 2;
    let unauthorized: Principal = 3;
    contract.add_car(owner, 1500, true).unwrap();
    contract.rental(renter, owner, 3, 4500, true, 10_000).unwrap();
    // The oracle approves `unauthorized` for its own call, yet it holds no rental.
    assert_eq!(contract.return_car(unauthorized, owner, true), Err(Error::RentalNotFound));
    // The renter without approval is refused too.
    assert_eq!(contract.return_car(renter, owner, false), Err(Error::Unauthorized));
    assert_eq!(contract.has_rental(renter, owner), true);
}

#[test]
fn test_return_car_multiple_rentals_and_returns() {
    let mut contract = setup();
    let owner: Principal = 1;
    let renter1: Principal = 2;
    let renter2: Principal = 3;
    contract.add_car(owner, 1500, true).unwrap();

    contract.rental(renter1, owner, 3, 4500, true, 10_000).unwrap();
    assert_eq!(contract.get_car(owner).unwrap().car_status, CarStatus::Rented);
    contract.return_car(renter1, owner, true).unwrap();
    assert_eq!(contract.get_car(owner).unwrap().car_status, CarStatus::Available);

    contract.rental(renter2, owner, 3, 4500, true, 10_000).unwrap();
    assert_eq!(contract.get_car(owner).unwrap().car_status, CarStatus::Rented);
    contract.return_car(renter2, owner, true).unwrap();
    assert_eq!(contract.get_car(owner).unwrap().car_status, CarStatus::Available);
}
