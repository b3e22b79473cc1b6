use rent_a_car::{CarStatus, Error, Event, Principal, RentACar, Transfer};

const ADMIN: Principal = 100;

fn setup() -> RentACar {
    let mut contract = RentACar::new();
    contract.initialize(ADMIN).unwrap();
    contract
}

#[test]
fn test_payout_owner_successfully() {
    let mut contract = setup();
    let owner: Principal = 1;
    let renter: Principal = 2;
    let amount = 4500_i128;
    contract.add_car(owner, 1500, true).unwrap();
    contract.rental(renter, owner, 3, amount, true, 10_000).unwrap();
    contract.return_car(renter, owner, true).unwrap();

    assert_eq!(contract.contract_balance(), amount);

    let (transfer, event) = contract.payout_owner(owner, amount, true).unwrap();

    assert_eq!(contract.get_car(owner).unwrap().available_to_withdraw, 0);
    assert_eq!(contract.contract_balance(), 0);
    assert_eq!(transfer, Transfer::OutOfCustody { to: owner, amount });
    assert_eq!(event, Event::Payout { owner, amount });
}

#[test]
fn test_payout_owner_when_car_is_rented_fails() {
    let mut contract = setup();
    let owner: Principal = 1;
    let renter: Principal = 2;
    contract.add_car(owner, 1500, true).unwrap();
    contract.rental(renter, owner, 3, 4500, true, 10_000).unwrap();
    assert_eq!(contract.payout_owner(owner, 4500, true), Err(Error::CarStillRented));
}

#[test]
fn test_payout_owner_after_return_car_successfully() {
    let mut contract = setup();
    let owner: Principal = 1;
    let renter: Principal = 2;
    let amount = 4500_i128;
    contract.add_car(owner, 1500, true).unwrap();
    contract.rental(renter, owner, 3, amount, true, 10_000).unwrap();
    assert_eq!(contract.get_car(owner).unwrap().car_status, CarStatus::Rented);

    contract.return_car(renter, owner, true).unwrap();
    assert_eq!(contract.get_car(owner).unwrap().car_status, CarStatus::Available);

    contract.payout_owner(owner, amount, true).unwrap();
    assert_eq!(contract.get_car(owner).unwrap().available_to_withdraw, 0);
}
