use car_rental::records::{Car, CarPayload, Customer, CustomerPayload, Error, Reservation};
use car_rental::durable::Regions;
use car_rental::service::{RentalStore, _check_if_owner};

fn store() -> RentalStore {
    RentalStore::init().expect("a fresh memory opens")
}

fn payload(make: &str, model: &str, year: u32, color: &str, is_booked: bool) -> CarPayload {
    CarPayload {
        make: make.to_string(),
        model: model.to_string(),
        year,
        color: color.to_string(),
        is_booked,
    }
}

fn corolla() -> CarPayload {
    payload("Toyota", "Corolla", 2020, "red", false)
}

fn alice() -> CustomerPayload {
    CustomerPayload { name: "Alice".to_string(), contact: "a@x.com".to_string() }
}

fn owner() -> String {
    "2vxsx-fae".to_string()
}

fn stranger() -> String {
    "aaaaa-aa".to_string()
}

#[test]
fn fresh_store_is_empty() {
    let s = store();
    assert_eq!(s.generate_report(), Vec::<Car>::new());
    assert!(s._get_car(&0).is_none());
    assert!(s._get_customer(&0).is_none());
    assert!(s._get_reservation(&0).is_none());
}

#[test]
fn add_car_stamps_the_record() {
    let mut s = store();
    let car = s.add_car(corolla(), 1_700_000_000, &owner()).unwrap();
    assert_eq!(
        car,
        Car {
            id: 0,
            make: "Toyota".to_string(),
            model: "Corolla".to_string(),
            year: 2020,
            color: "red".to_string(),
            created_at: 1_700_000_000,
            updated_at: None,
            owner: owner(),
            is_booked: false,
        }
    );
    assert_eq!(s.get_car(0), Ok(car));
}

#[test]
fn add_car_copies_the_booking_flag() {
    let mut s = store();
    let car = s.add_car(payload("Audi", "A4", 2019, "grey", true), 5, &owner()).unwrap();
    assert!(car.is_booked);
    assert_eq!(s.is_booked(0), Ok(true));
}

#[test]
fn get_car_twice_gives_the_same() {
    let mut s = store();
    s.add_car(corolla(), 1, &owner()).unwrap();
    let first = s.get_car(0);
    let second = s.get_car(0);
    assert_eq!(first, second);
    let missing_first = s.get_car(9);
    let missing_second = s.get_car(9);
    assert_eq!(missing_first, missing_second);
}

#[test]
fn get_car_not_found_message() {
    let s = store();
    assert_eq!(
        s.get_car(42),
        Err(Error::NotFound { msg: "a car with id=42 not found".to_string() })
    );
    assert_eq!(
        s.get_car(u64::MAX),
        Err(Error::NotFound { msg: "a car with id=18446744073709551615 not found".to_string() })
    );
    assert_eq!(
        s.get_car(0),
        Err(Error::NotFound { msg: "a car with id=0 not found".to_string() })
    );
}

#[test]
fn ids_increase_from_zero_without_reuse() {
    let mut s = store();
    let a = s.add_car(corolla(), 1, &owner()).unwrap();
    let b = s.add_car(corolla(), 2, &owner()).unwrap();
    assert_eq!((a.id, b.id), (0, 1));
    s.delete_car(1, &owner()).unwrap();
    s.delete_car(0, &owner()).unwrap();
    let c = s.add_car(corolla(), 3, &owner()).unwrap();
    assert_eq!(c.id, 2);
    let d = s.add_car(corolla(), 4, &stranger()).unwrap();
    assert_eq!(d.id, 3);
}

#[test]
fn car_and_customer_counters_are_independent() {
    let mut s = store();
    s.add_car(corolla(), 1, &owner()).unwrap();
    s.add_car(corolla(), 1, &owner()).unwrap();
    let customer = s.add_customer(alice()).unwrap();
    assert_eq!(customer.id, 0);
    let car = s.add_car(corolla(), 1, &owner()).unwrap();
    assert_eq!(car.id, 2);
    assert_eq!(s.add_customer(alice()).unwrap().id, 1);
}

#[test]
fn validation_gate_keeps_the_counter() {
    let mut s = store();
    let refused = s.add_car(payload("Toyota", "Corolla", 1800, "red", false), 1, &owner());
    assert!(matches!(refused, Err(Error::ValidationErrors { .. })));
    assert_eq!(s.generate_report(), Vec::<Car>::new());
    let car = s.add_car(corolla(), 2, &owner()).unwrap();
    assert_eq!(car.id, 0);
}

#[test]
fn validation_message_names_the_field() {
    let mut s = store();
    match s.add_car(payload("Toyota", "Corolla", 1800, "red", false), 1, &owner()) {
        Err(Error::ValidationErrors { errors }) => {
            assert!(errors.starts_with("year: Validation error: range ["), "{}", errors);
            assert!(errors.contains("1800"), "{}", errors);
        }
        other => panic!("unexpected {:?}", other),
    }
    match s.add_car(payload("T", "Corolla", 2020, "red", false), 1, &owner()) {
        Err(Error::ValidationErrors { errors }) => {
            assert!(errors.starts_with("make: Validation error: length ["), "{}", errors);
        }
        other => panic!("unexpected {:?}", other),
    }
    match s.add_customer(CustomerPayload { name: String::new(), contact: String::new() }) {
        Err(Error::ValidationErrors { errors }) => {
            assert!(errors.starts_with("name: Validation error: length ["), "{}", errors);
        }
        other => panic!("unexpected {:?}", other),
    }
}

#[test]
fn year_bounds_are_included() {
    let mut s = store();
    assert!(s.add_car(payload("Benz", "Velo", 1880, "black", false), 1, &owner()).is_ok());
    assert!(s.add_car(payload("Kia", "EV9", 2024, "blue", false), 1, &owner()).is_ok());
    assert!(matches!(
        s.add_car(payload("Benz", "Velo", 1879, "black", false), 1, &owner()),
        Err(Error::ValidationErrors { .. })
    ));
    assert!(matches!(
        s.add_car(payload("Kia", "EV9", 2025, "blue", false), 1, &owner()),
        Err(Error::ValidationErrors { .. })
    ));
    assert_eq!(s.generate_report().len(), 2);
}

#[test]
fn lengths_are_counted_in_characters() {
    let mut s = store();
    assert!(matches!(
        s.add_car(payload("A", "Corolla", 2020, "red", false), 1, &owner()),
        Err(Error::ValidationErrors { .. })
    ));
    assert!(matches!(
        s.add_car(payload("Toyota", "C", 2020, "red", false), 1, &owner()),
        Err(Error::ValidationErrors { .. })
    ));
    assert!(matches!(
        s.add_car(payload("Toyota", "Corolla", 2020, "", false), 1, &owner()),
        Err(Error::ValidationErrors { .. })
    ));
    // one character of two bytes is still one character
    assert!(matches!(
        s.add_car(payload("\u{e9}", "Corolla", 2020, "red", false), 1, &owner()),
        Err(Error::ValidationErrors { .. })
    ));
    let car = s.add_car(payload("\u{e9}\u{e9}", "Z4", 2020, "r", false), 1, &owner()).unwrap();
    assert_eq!(car.id, 0);
    assert_eq!(s.get_car(0).unwrap().make, "\u{e9}\u{e9}");
}

#[test]
fn update_car_replaces_the_mutable_fields() {
    let mut s = store();
    s.add_car(corolla(), 10, &owner()).unwrap();
    let updated =
        s.update_car(0, payload("Honda", "Civic", 2021, "blue", true), 20, &owner()).unwrap();
    assert_eq!(
        updated,
        Car {
            id: 0,
            make: "Honda".to_string(),
            model: "Civic".to_string(),
            year: 2021,
            color: "blue".to_string(),
            created_at: 10,
            updated_at: Some(20),
            owner: owner(),
            is_booked: true,
        }
    );
    assert_eq!(s.get_car(0), Ok(updated));
    let again = s.update_car(0, corolla(), 30, &owner()).unwrap();
    assert_eq!(again.updated_at, Some(30));
    assert_eq!(again.created_at, 10);
}

#[test]
fn update_car_by_stranger_is_refused() {
    let mut s = store();
    let car = s.add_car(corolla(), 10, &owner()).unwrap();
    assert_eq!(
        s.update_car(0, payload("Honda", "Civic", 2021, "blue", true), 20, &stranger()),
        Err(Error::NotAuthorized {
            msg: "Unauthorized to update car with id=0. car not found".to_string()
        })
    );
    assert_eq!(s.get_car(0), Ok(car.clone()));
    // a payload that is not acceptable is reported first
    assert!(matches!(
        s.update_car(0, payload("Honda", "Civic", 1800, "blue", true), 20, &stranger()),
        Err(Error::ValidationErrors { .. })
    ));
    assert_eq!(s.get_car(0), Ok(car));
}

#[test]
fn update_car_validates_before_lookup() {
    let mut s = store();
    assert!(matches!(
        s.update_car(7, payload("H", "Civic", 2021, "blue", true), 20, &owner()),
        Err(Error::ValidationErrors { .. })
    ));
    assert_eq!(
        s.update_car(7, corolla(), 20, &owner()),
        Err(Error::NotFound { msg: "couldn't update a car with id=7. car not found".to_string() })
    );
}

#[test]
fn delete_car_scenario() {
    let mut s = store();
    let car = s.add_car(corolla(), 10, &owner()).unwrap();
    assert_eq!(
        s.delete_car(0, &stranger()),
        Err(Error::NotAuthorized {
            msg: "Unauthorized to delete car with id=0. car not found".to_string()
        })
    );
    assert_eq!(s.get_car(0), Ok(car.clone()));
    assert_eq!(s.delete_car(0, &owner()), Ok(car));
    assert_eq!(
        s.get_car(0),
        Err(Error::NotFound { msg: "a car with id=0 not found".to_string() })
    );
    assert_eq!(
        s.delete_car(0, &owner()),
        Err(Error::NotFound { msg: "couldn't delete a car with id=0. car not found.".to_string() })
    );
}

#[test]
fn is_booked_reads_the_flag() {
    let mut s = store();
    s.add_car(corolla(), 1, &owner()).unwrap();
    s.add_car(payload("Audi", "A4", 2019, "grey", true), 1, &owner()).unwrap();
    assert_eq!(s.is_booked(0), Ok(false));
    assert_eq!(s.is_booked(1), Ok(true));
    assert_eq!(
        s.is_booked(2),
        Err(Error::NotFound { msg: "a car with id=2 not found".to_string() })
    );
}

#[test]
fn generate_report_is_in_ascending_order() {
    let mut s = store();
    for i in 0..40u64 {
        let car = s.add_car(corolla(), i, &owner()).unwrap();
        assert_eq!(car.id, i);
    }
    s.delete_car(3, &owner()).unwrap();
    s.delete_car(17, &owner()).unwrap();
    let report = s.generate_report();
    let ids: Vec<u64> = report.iter().map(|car| car.id).collect();
    let expected: Vec<u64> = (0..40u64).filter(|i| *i != 3 && *i != 17).collect();
    assert_eq!(ids, expected);
    for car in &report {
        assert_eq!(car.created_at, car.id);
        assert_eq!(s.get_car(car.id).as_ref(), Ok(car));
    }
}

#[test]
fn do_insert_car_files_under_the_id() {
    let mut s = store();
    let first = s.add_car(corolla(), 1, &owner()).unwrap();
    s.add_car(corolla(), 2, &owner()).unwrap();
    let replacement = Car { color: "green".to_string(), ..first.clone() };
    s.do_insert_car(&replacement);
    assert_eq!(s._get_car(&0), Some(replacement));
    assert_eq!(s._get_car(&1).unwrap().created_at, 2);
    assert_eq!(s.generate_report().len(), 2);
}

#[test]
fn check_if_owner_compares_identities() {
    let mut s = store();
    let car = s.add_car(corolla(), 1, &owner()).unwrap();
    assert!(_check_if_owner(&car, &owner()));
    assert!(!_check_if_owner(&car, &stranger()));
    assert!(!_check_if_owner(&car, &String::new()));
}

#[test]
fn customers_are_added_read_and_deleted() {
    let mut s = store();
    let customer = s.add_customer(alice()).unwrap();
    assert_eq!(
        customer,
        Customer { id: 0, name: "Alice".to_string(), contact: "a@x.com".to_string() }
    );
    assert_eq!(s.get_customer(0), Ok(customer.clone()));
    assert_eq!(
        s.get_customer(1),
        Err(Error::NotFound { msg: "a customer with id=1 not found".to_string() })
    );
    assert_eq!(s.delete_customer(0), Ok(customer));
    assert_eq!(
        s.delete_customer(0),
        Err(Error::NotFound { msg: "a customer with id=0 not found".to_string() })
    );
    assert_eq!(
        s.get_customer(0),
        Err(Error::NotFound { msg: "a customer with id=0 not found".to_string() })
    );
}

#[test]
fn customer_with_empty_name_is_refused() {
    let mut s = store();
    let refused =
        s.add_customer(CustomerPayload { name: String::new(), contact: "c".to_string() });
    assert!(matches!(refused, Err(Error::ValidationErrors { .. })));
    let accepted =
        s.add_customer(CustomerPayload { name: "B".to_string(), contact: String::new() });
    assert_eq!(accepted.unwrap().id, 0);
}

#[test]
fn end_to_end_scenario() {
    let mut s = store();
    let car = s.add_car(corolla(), 100, &owner()).unwrap();
    assert_eq!(car.id, 0);
    let customer = s.add_customer(alice()).unwrap();
    assert_eq!(customer.id, 0);
    let reservation = s.make_reservation(0, 0, 200).unwrap();
    assert_eq!(reservation, Reservation { car_id: 0, customer_id: 0, reservation_time: 200 });
    assert_eq!(s.get_reservation(0), Ok(reservation));
    assert_eq!(s.cancel_reservation(0), Ok(()));
    assert_eq!(
        s.get_reservation(0),
        Err(Error::NotFound { msg: "a reservation for car_id=0 not found".to_string() })
    );
    assert_eq!(
        s.cancel_reservation(0),
        Err(Error::NotFound { msg: "a reservation for car_id=0 not found".to_string() })
    );
}

#[test]
fn booked_car_cannot_be_reserved() {
    let mut s = store();
    s.add_car(payload("Audi", "A4", 2019, "grey", true), 1, &owner()).unwrap();
    s.add_customer(alice()).unwrap();
    assert_eq!(
        s.make_reservation(0, 0, 5),
        Err(Error::AlreadyBooked { msg: "Car with id=0 is already booked.".to_string() })
    );
    assert_eq!(
        s.get_reservation(0),
        Err(Error::NotFound { msg: "a reservation for car_id=0 not found".to_string() })
    );
    // a customer that does not exist is reported first
    assert_eq!(
        s.make_reservation(0, 99, 5),
        Err(Error::NotFound { msg: "Car or customer not found for reservation".to_string() })
    );
    assert!(s._get_reservation(&0).is_none());
}

#[test]
fn reservation_needs_car_and_customer() {
    let mut s = store();
    let missing =
        Err(Error::NotFound { msg: "Car or customer not found for reservation".to_string() });
    assert_eq!(s.make_reservation(0, 0, 5), missing);
    s.add_car(corolla(), 1, &owner()).unwrap();
    assert_eq!(s.make_reservation(0, 0, 5), missing);
    s.add_customer(alice()).unwrap();
    assert_eq!(s.make_reservation(1, 0, 5), missing);
    assert_eq!(s.make_reservation(0, 1, 5), missing);
    assert!(s.make_reservation(0, 0, 5).is_ok());
}

#[test]
fn reservation_does_not_touch_the_booking_flag() {
    let mut s = store();
    s.add_car(corolla(), 1, &owner()).unwrap();
    s.add_customer(alice()).unwrap();
    s.add_customer(alice()).unwrap();
    s.make_reservation(0, 0, 5).unwrap();
    assert_eq!(s.is_booked(0), Ok(false));
    // the flag is still clear, so a second reservation replaces the first
    let second = s.make_reservation(0, 1, 6).unwrap();
    assert_eq!(s.get_reservation(0), Ok(second));
    assert_eq!(second.customer_id, 1);
    s.cancel_reservation(0).unwrap();
    assert_eq!(s.is_booked(0), Ok(false));
}

#[test]
fn reservation_survives_deleting_its_car() {
    let mut s = store();
    s.add_car(corolla(), 1, &owner()).unwrap();
    s.add_customer(alice()).unwrap();
    let reservation = s.make_reservation(0, 0, 5).unwrap();
    s.delete_car(0, &owner()).unwrap();
    s.delete_customer(0).unwrap();
    assert_eq!(s.get_reservation(0), Ok(reservation));
}

#[test]
fn do_insert_reservation_and_customer_store_the_record() {
    let mut s = store();
    let reservation = Reservation { car_id: 9, customer_id: 4, reservation_time: 77 };
    s.do_insert_reservation(&reservation);
    assert_eq!(s._get_reservation(&9), Some(reservation));
    assert_eq!(s._get_reservation(&4), None);
    let customer = s.add_customer(alice()).unwrap();
    let renamed = Customer { name: "Alicia".to_string(), ..customer };
    s.do_insert_customer(&renamed);
    assert_eq!(s._get_customer(&0), Some(renamed));
}

#[test]
fn checked_add_car_refuses_a_record_that_is_too_long() {
    let mut s = store();
    let long = "x".repeat(2000);
    assert_eq!(s.checked_add_car(payload(&long, "Corolla", 2020, "red", false), 1, &owner()), None);
    // nothing was stored and no identifier was used
    assert_eq!(s.generate_report(), Vec::<Car>::new());
    let car = s.checked_add_car(corolla(), 1, &owner()).unwrap().unwrap();
    assert_eq!(car.id, 0);
    // a payload that is not acceptable is answered, whatever its length
    assert!(matches!(
        s.checked_add_car(payload(&long, "C", 2020, "red", false), 1, &owner()),
        Some(Err(Error::ValidationErrors { .. }))
    ));
}

#[test]
fn checked_add_car_admits_a_record_of_exactly_the_bound() {
    let mut s = store();
    // 8 + (8 + make) + (8 + 2) + 4 + (8 + 1) + 8 + 1 + (8 + 9) + 1 = 66 + make
    let make = "m".repeat(1024 - 66);
    let car = s.checked_add_car(payload(&make, "Z4", 2020, "r", false), 1, &owner());
    assert_eq!(car.unwrap().unwrap().make.len(), 958);
    let make = "m".repeat(1024 - 65);
    assert_eq!(s.checked_add_car(payload(&make, "Z4", 2020, "r", false), 1, &owner()), None);
    assert_eq!(s.generate_report().len(), 1);
}

#[test]
fn checked_update_car_refuses_a_record_that_is_too_long() {
    let mut s = store();
    let car = s.add_car(corolla(), 1, &owner()).unwrap();
    let long = "x".repeat(2000);
    assert_eq!(
        s.checked_update_car(0, payload(&long, "Corolla", 2020, "red", false), 2, &owner()),
        None
    );
    assert_eq!(s.get_car(0), Ok(car));
    assert!(matches!(
        s.checked_update_car(0, payload(&long, "Corolla", 2020, "red", false), 2, &stranger()),
        Some(Err(Error::NotAuthorized { .. }))
    ));
    assert!(matches!(
        s.checked_update_car(5, payload(&long, "Corolla", 2020, "red", false), 2, &owner()),
        Some(Err(Error::NotFound { .. }))
    ));
    let updated = s.checked_update_car(0, payload("Honda", "Civic", 2021, "blue", true), 3, &owner());
    assert_eq!(updated.unwrap().unwrap().updated_at, Some(3));
}

#[test]
fn checked_add_customer_refuses_a_record_that_is_too_long() {
    let mut s = store();
    let long = "y".repeat(1500);
    assert_eq!(
        s.checked_add_customer(CustomerPayload { name: long, contact: String::new() }),
        None
    );
    assert_eq!(s.checked_add_customer(alice()).unwrap().unwrap().id, 0);
}

#[test]
fn stores_do_not_share_records() {
    let mut a = store();
    let b = store();
    a.add_car(corolla(), 1, &owner()).unwrap();
    assert_eq!(a.generate_report().len(), 1);
    assert_eq!(b.generate_report().len(), 0);
}

#[test]
fn counters_can_be_read() {
    let mut s = store();
    assert_eq!((s.next_car_id(), s.next_customer_id()), (0, 0));
    s.add_car(corolla(), 1, &owner()).unwrap();
    assert_eq!((s.next_car_id(), s.next_customer_id()), (1, 0));
    s.add_customer(alice()).unwrap();
    s.add_customer(alice()).unwrap();
    assert_eq!((s.next_car_id(), s.next_customer_id()), (1, 2));
    // what is refused, read or removed leaves the counters alone
    let _ = s.add_car(payload("T", "Corolla", 2020, "red", false), 1, &owner());
    let _ = s.add_customer(CustomerPayload { name: String::new(), contact: String::new() });
    let _ = s.get_car(0);
    s.delete_car(0, &owner()).unwrap();
    s.delete_customer(1).unwrap();
    assert_eq!((s.next_car_id(), s.next_customer_id()), (1, 2));
}

#[test]
fn a_closed_store_reopens_as_it_was() {
    let mut s = RentalStore::open(Regions::new()).expect("a fresh memory opens");
    for i in 0..30u64 {
        s.add_car(payload("Toyota", "Corolla", 2000 + (i as u32 % 20), "red", i % 2 == 0), i, &owner())
            .unwrap();
    }
    s.delete_car(29, &owner()).unwrap();
    s.update_car(4, payload("Honda", "Civic", 2021, "blue", false), 99, &owner()).unwrap();
    s.add_customer(alice()).unwrap();
    let reservation = s.make_reservation(1, 0, 50).unwrap();
    let report = s.generate_report();
    let customer = s.get_customer(0);

    let mut s = RentalStore::open(s.close()).expect("sound regions reopen");
    assert_eq!(s.generate_report(), report);
    assert_eq!(s.get_customer(0), customer);
    assert_eq!(s.get_reservation(1), Ok(reservation));
    assert_eq!(s.get_car(4).unwrap().updated_at, Some(99));
    assert_eq!((s.next_car_id(), s.next_customer_id()), (30, 1));
    // the identifier of the deleted car is not given out again
    assert_eq!(s.add_car(corolla(), 1, &owner()).unwrap().id, 30);
    assert_eq!(s.add_customer(alice()).unwrap().id, 1);

    let s = RentalStore::open(s.close()).expect("sound regions reopen");
    assert_eq!(s.generate_report().len(), 30);
}
