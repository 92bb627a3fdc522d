use car_rental::records::{CarPayload, CustomerPayload};
use car_rental::rules::{
    check_car_payload, check_customer_payload, MAX_YEAR, MIN_LABEL_LENGTH, MIN_NAME_LENGTH,
    MIN_YEAR,
};

fn payload(make: &str, model: &str, year: u32, color: &str) -> CarPayload {
    CarPayload {
        make: make.to_string(),
        model: model.to_string(),
        year,
        color: color.to_string(),
        is_booked: false,
    }
}

#[test]
fn the_limits() {
    assert_eq!((MIN_NAME_LENGTH, MIN_LABEL_LENGTH, MIN_YEAR, MAX_YEAR), (2, 1, 1880, 2024));
}

#[test]
fn acceptable_car_payloads() {
    assert_eq!(check_car_payload(&payload("VW", "Up", 1880, "r")), Ok(()));
    assert_eq!(check_car_payload(&payload("Toyota", "Corolla", 2024, "red")), Ok(()));
}

#[test]
fn each_rule_refuses_alone() {
    assert!(check_car_payload(&payload("V", "Up", 2000, "r")).is_err());
    assert!(check_car_payload(&payload("VW", "U", 2000, "r")).is_err());
    assert!(check_car_payload(&payload("VW", "Up", 1879, "r")).is_err());
    assert!(check_car_payload(&payload("VW", "Up", 2025, "r")).is_err());
    assert!(check_car_payload(&payload("VW", "Up", 0, "r")).is_err());
    assert!(check_car_payload(&payload("VW", "Up", u32::MAX, "r")).is_err());
    assert!(check_car_payload(&payload("VW", "Up", 2000, "")).is_err());
    assert!(check_car_payload(&payload("", "", 2000, "")).is_err());
}

#[test]
fn the_report_lists_every_failing_field() {
    let report = check_car_payload(&payload("V", "U", 1800, "")).unwrap_err();
    assert_eq!(report.lines().count(), 4, "{}", report);
    for field in ["make: ", "model: ", "year: ", "color: "] {
        assert!(report.lines().any(|line| line.starts_with(field)), "{}", report);
    }
    let report = check_car_payload(&payload("VW", "Up", 1800, "r")).unwrap_err();
    assert_eq!(report.lines().count(), 1, "{}", report);
    assert!(report.starts_with("year: Validation error: range [{"), "{}", report);
    for part in ["\"min\": Number(1880)", "\"max\": Number(2024)", "\"value\": Number(1800)"] {
        assert!(report.contains(part), "{}", report);
    }
    let report = check_car_payload(&payload("V", "Up", 2000, "r")).unwrap_err();
    assert!(report.starts_with("make: Validation error: length [{"), "{}", report);
    for part in ["\"min\": Number(2)", "\"value\": String(\"V\")"] {
        assert!(report.contains(part), "{}", report);
    }
}

#[test]
fn customer_payloads() {
    let ok = CustomerPayload { name: "A".to_string(), contact: String::new() };
    assert_eq!(check_customer_payload(&ok), Ok(()));
    let empty = CustomerPayload { name: String::new(), contact: "c".to_string() };
    let report = check_customer_payload(&empty).unwrap_err();
    assert!(report.starts_with("name: Validation error: length [{"), "{}", report);
}
