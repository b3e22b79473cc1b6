use rent_a_car::{Principal, RentACar};

const ADMIN: Principal = 100;

fn setup() -> RentACar {
    let mut contract = RentACar::new();
    contract.initialize(ADMIN).unwrap();
    contract
}

#[test]
fn test_get_owner_available_to_withdraw_car_not_found() {
    let contract = setup();
    let owner: Principal = 1;
    assert_eq!(contract.get_owner_available_to_withdraw(owner), 0);
}

#[test]
fn test_get_owner_available_to_withdraw_car_rented() {
    let mut contract = setup();
    let owner: Principal = 1;
    let renter: Principal = 2;
    contract.add_car(owner, 1500, true).unwrap();
    contract.rental(renter, owner, 3, 4500, true, 10_000).unwrap();
    assert_eq!(contract.get_owner_available_to_withdraw(owner), 0, "Should return 0 when car is rented");
}

#[test]
fn test_get_owner_available_to_withdraw_car_available_no_funds() {
    let mut contract = setup();
    let owner: Principal = 1;
    contract.add_car(owner, 1500, true).unwrap();
    assert_eq!(contract.get_owner_available_to_withdraw(owner), 0, "Should return 0 when no funds available");
}

#[test]
fn test_get_owner_available_to_withdraw_car_available_with_funds() {
    let mut contract = setup();
    let owner: Principal = 1;
    let renter: Principal = 2;
    let amount = 4500_i128;
    contract.add_car(owner, 1500, true).unwrap();
    contract.rental(renter, owner, 3, amount, true, 10_000).unwrap();
    contract.return_car(renter, owner, true).unwrap();
    assert_eq!(
        contract.get_owner_available_to_withdraw(owner),
        amount,
        "Should return the available amount when car is returned"
    );
}

#[test]
fn test_get_owner_available_to_withdraw_after_partial_withdraw() {
    let mut contract = setup();
    let owner: Principal = 1;
    let renter: Principal = 2;
    let amount = 4500_i128;
    let withdraw_amount = 2000_i128;
    contract.add_car(owner, 1500, true).unwrap();
    contract.rental(renter, owner, 3, amount, true, 10_000).unwrap();
    contract.return_car(renter, owner, true).unwrap();

    assert_eq!(contract.get_owner_available_to_withdraw(owner), amount);
    contract.payout_owner(owner, withdraw_amount, true).unwrap();
    assert_eq!(
        contract.get_owner_available_to_withdraw(owner),
        amount - withdraw_amount,
        "Should return remaining amount after partial withdrawal"
    );
}

#[test]
fn test_get_owner_available_to_withdraw_multiple_rentals() {
    let mut contract = setup();
    let owner: Principal = 1;
    let renter1: Principal = 2;
    let renter2: Principal = 3;
    let amount1 = 4500_i128;
    let amount2 = 3000_i128;
    contract.add_car(owner, 1500, true).unwrap();

    contract.rental(renter1, owner, 3, amount1, true, 10_000).unwrap();
    contract.return_car(renter1, owner, true).unwrap();
    contract.rental(renter2, owner, 2, amount2, true, 10_000).unwrap();
    contract.return_car(renter2, owner, true).unwrap();

    assert_eq!(
        contract.get_owner_available_to_withdraw(owner),
        amount1 + amount2,
        "Should return total accumulated funds from multiple rentals"
    );
}
