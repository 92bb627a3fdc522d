//! The constraints on what callers send, checked by the `validator` crate,
//! and the report of the fields that fail them.

use crate::records::{CarPayload, CarPayloadView, CustomerPayload, CustomerPayloadView};
use std::borrow::Cow;
use validator::{ValidationError, ValidationErrors};
use vstd::prelude::*;

verus! {

/// The least number of characters in a car's make and in its model.
pub const MIN_NAME_LENGTH: u64 = 2;

/// The least number of characters in a car's color and in a customer's name.
pub const MIN_LABEL_LENGTH: u64 = 1;

/// The first year of manufacture that is accepted.
pub const MIN_YEAR: u32 = 1880;

/// The last year of manufacture that is accepted.
pub const MAX_YEAR: u32 = 2024;

/// A car payload is acceptable: make and model of two characters or more, a
/// year from 1880 to 2024, a color that is not empty.
pub open spec fn car_payload_valid(payload: CarPayloadView) -> bool {
    &&& payload.make.len() >= MIN_NAME_LENGTH
    &&& payload.model.len() >= MIN_NAME_LENGTH
    &&& MIN_YEAR <= payload.year <= MAX_YEAR
    &&& payload.color.len() >= MIN_LABEL_LENGTH
}

/// A customer payload is acceptable: a name that is not empty.
pub open spec fn customer_payload_valid(payload: CustomerPayloadView) -> bool {
    payload.name.len() >= MIN_LABEL_LENGTH
}

/// `validator::ValidationError`: what one rule has against one field.
#[verifier::external_type_specification]
#[verifier::external_body]
pub struct ExValidationError(ValidationError);

/// `validator::ValidationErrors`: the report of a payload, an entry for each
/// field that failed.
#[verifier::external_type_specification]
#[verifier::external_body]
pub struct ExValidationErrors(ValidationErrors);

/// `validator::validate_length` with a lower bound alone: whether the text
/// has at least `min` characters.
#[verifier::external_body]
fn long_enough(text: &String, min: u64) -> (ok: bool)
    ensures
        ok == (text@.len() >= min),
{
    validator::validate_length(text, Some(min), None, None)
}

/// `validator::validate_range` with both bounds: whether `value` lies from
/// `min` to `max`, both included.
#[verifier::external_body]
fn within(value: u32, min: u32, max: u32) -> (ok: bool)
    ensures
        ok == (min <= value <= max),
{
    validator::validate_range(value, Some(min), Some(max))
}

/// What one rule has against one field: the rule's code and its
/// parameters by name, those that are numbers and those that are texts.
pub struct Fault {
    pub code: Seq<char>,
    pub numbers: Map<Seq<char>, u64>,
    pub texts: Map<Seq<char>, Seq<char>>,
}

/// What the error holds.
pub uninterp spec fn fault_of(error: ValidationError) -> Fault;

/// What the report holds: under the name of each field that failed, what
/// the rules have against it, in the order of filing.
pub uninterp spec fn report_faults(report: ValidationErrors) -> Map<Seq<char>, Seq<Fault>>;

/// Every entry of the report lists the errors of one field: none holds the
/// report of a nested structure.
pub uninterp spec fn lists_fields_only(report: ValidationErrors) -> bool;

/// What is filed under `field` so far.
pub open spec fn filed(faults: Map<Seq<char>, Seq<Fault>>, field: Seq<char>) -> Seq<Fault> {
    if faults.contains_key(field) {
        faults[field]
    } else {
        Seq::empty()
    }
}

/// The faults with one more filed under `field`, after those already there.
pub open spec fn with_fault(
    faults: Map<Seq<char>, Seq<Fault>>,
    field: Seq<char>,
    fault: Fault,
) -> Map<Seq<char>, Seq<Fault>> {
    faults.insert(field, filed(faults, field).push(fault))
}

/// What the length rule has against a text that is shorter than `min`.
pub open spec fn length_fault(min: u64, value: Seq<char>) -> Fault {
    Fault { code: "length"@, numbers: map!["min"@ => min], texts: map!["value"@ => value] }
}

/// What the range rule has against a number that lies outside `min` to
/// `max`.
pub open spec fn range_fault(min: u32, max: u32, value: u32) -> Fault {
    Fault {
        code: "range"@,
        numbers: Map::<Seq<char>, u64>::empty().insert("min"@, min as u64).insert(
            "max"@,
            max as u64,
        ).insert("value"@, value as u64),
        texts: Map::empty(),
    }
}

/// `ValidationErrors::new`: a report with no entry.
#[verifier::external_body]
fn new_report() -> (report: ValidationErrors)
    ensures
        lists_fields_only(report),
        report_faults(report) == (Map::<Seq<char>, Seq<Fault>>::empty()),
{
    ValidationErrors::new()
}

/// `ValidationError::new`: an error with the given code and no parameter.
#[verifier::external_body]
fn new_error(code: &'static str) -> (error: ValidationError)
    ensures
        fault_of(error) == (Fault { code: code@, numbers: Map::empty(), texts: Map::empty() }),
{
    ValidationError::new(code)
}

/// `ValidationError::add_param` with a number: the parameter of that name
/// is now this number, whatever it was.
#[verifier::external_body]
fn note_number(error: &mut ValidationError, name: &'static str, value: u64)
    ensures
        fault_of(*final(error)) == (Fault {
            code: fault_of(*old(error)).code,
            numbers: fault_of(*old(error)).numbers.insert(name@, value),
            texts: fault_of(*old(error)).texts.remove(name@),
        }),
{
    error.add_param(Cow::from(name), &value)
}

/// `ValidationError::add_param` with a text: the parameter of that name is
/// now this text, whatever it was.
#[verifier::external_body]
fn note_text(error: &mut ValidationError, name: &'static str, value: &String)
    ensures
        fault_of(*final(error)) == (Fault {
            code: fault_of(*old(error)).code,
            numbers: fault_of(*old(error)).numbers.remove(name@),
            texts: fault_of(*old(error)).texts.insert(name@, value@),
        }),
{
    error.add_param(Cow::from(name), value)
}

/// `ValidationErrors::add`: files the error under the field's name, after
/// those already filed there. `add` stops the program where the field holds
/// the report of a nested structure, so such a report is not admitted.
#[verifier::external_body]
fn file_error(report: &mut ValidationErrors, field: &'static str, error: ValidationError)
    requires
        lists_fields_only(*old(report)),
    ensures
        lists_fields_only(*final(report)),
        report_faults(*final(report)) == with_fault(
            report_faults(*old(report)),
            field@,
            fault_of(error),
        ),
{
    report.add(field, error)
}

/// `ValidationErrors::to_string`: the report as `validator` prints it. The
/// order of the fields and of their parameters in the text is not fixed.
#[verifier::external_body]
fn report_text(report: &ValidationErrors) -> String {
    report.to_string()
}

/// Files under `field` that `value` is shorter than `min`.
fn report_length(report: &mut ValidationErrors, field: &'static str, min: u64, value: &String)
    requires
        lists_fields_only(*old(report)),
    ensures
        lists_fields_only(*final(report)),
        report_faults(*final(report)) == with_fault(
            report_faults(*old(report)),
            field@,
            length_fault(min, value@),
        ),
{
    let mut error = new_error("length");
    note_number(&mut error, "min", min);
    note_text(&mut error, "value", value);
    proof {
        reveal_strlit("min");
        reveal_strlit("value");
        assert("min"@.len() != "value"@.len());
        assert(fault_of(error).numbers =~= length_fault(min, value@).numbers);
        assert(fault_of(error).texts =~= length_fault(min, value@).texts);
    }
    file_error(report, field, error);
}

/// Files under `field` that `value` lies outside `min` to `max`.
fn report_range(report: &mut ValidationErrors, field: &'static str, min: u32, max: u32, value: u32)
    requires
        lists_fields_only(*old(report)),
    ensures
        lists_fields_only(*final(report)),
        report_faults(*final(report)) == with_fault(
            report_faults(*old(report)),
            field@,
            range_fault(min, max, value),
        ),
{
    let mut error = new_error("range");
    note_number(&mut error, "min", min as u64);
    note_number(&mut error, "max", max as u64);
    note_number(&mut error, "value", value as u64);
    proof {
        assert(fault_of(error).numbers =~= range_fault(min, max, value).numbers);
        assert(fault_of(error).texts =~= range_fault(min, max, value).texts);
    }
    file_error(report, field, error);
}

/// Checks a car payload: `Ok` exactly when it is acceptable, else the report
/// of every field that is not.
pub fn check_car_payload(payload: &CarPayload) -> (checked: Result<(), String>)
    ensures
        checked is Ok == car_payload_valid(payload@),
{
    let make_ok = long_enough(&payload.make, MIN_NAME_LENGTH);
    let model_ok = long_enough(&payload.model, MIN_NAME_LENGTH);
    let year_ok = within(payload.year, MIN_YEAR, MAX_YEAR);
    let color_ok = long_enough(&payload.color, MIN_LABEL_LENGTH);
    if make_ok && model_ok && year_ok && color_ok {
        return Ok(());
    }
    let mut report = new_report();
    if !make_ok {
        report_length(&mut report, "make", MIN_NAME_LENGTH, &payload.make);
    }
    if !model_ok {
        report_length(&mut report, "model", MIN_NAME_LENGTH, &payload.model);
    }
    if !year_ok {
        report_range(&mut report, "year", MIN_YEAR, MAX_YEAR, payload.year);
    }
    if !color_ok {
        report_length(&mut report, "color", MIN_LABEL_LENGTH, &payload.color);
    }
    Err(report_text(&report))
}

/// Checks a customer payload: `Ok` exactly when it is acceptable, else the
/// report of the field that is not.
pub fn check_customer_payload(payload: &CustomerPayload) -> (checked: Result<(), String>)
    ensures
        checked is Ok == customer_payload_valid(payload@),
{
    if long_enough(&payload.name, MIN_LABEL_LENGTH) {
        return Ok(());
    }
    let mut report = new_report();
    report_length(&mut report, "name", MIN_LABEL_LENGTH, &payload.name);
    Err(report_text(&report))
}

} // verus!
