//! What the service is, stated without memory or bytes: the records it
//! holds, and for each operation the state it leaves and the answer it
//! gives.

use crate::codec::{car_fits, customer_fits};
use crate::records::{
    CarPayloadView, CarView, CustomerPayloadView, CustomerView, ErrorView, Reservation,
};
use crate::rules::{car_payload_valid, customer_payload_valid};
use crate::text::naming;
use vstd::prelude::*;

verus! {

/// The records held and the next identifier of each kind.
#[verifier::ext_equal]
pub struct State {
    pub cars: Map<u64, CarView>,
    pub customers: Map<u64, CustomerView>,
    pub reservations: Map<u64, Reservation>,
    pub next_car_id: u64,
    pub next_customer_id: u64,
}

impl State {
    /// Every record is filed under its own identifier, and no identifier
    /// that is still to be given out is in use. A reservation is filed
    /// under its car, so a car has one reservation at most.
    pub open spec fn well_formed(self) -> bool {
        &&& forall|id: u64| #[trigger]
            self.cars.contains_key(id) ==> self.cars[id].id == id && id < self.next_car_id
        &&& forall|id: u64| #[trigger]
            self.customers.contains_key(id) ==> self.customers[id].id == id && id
                < self.next_customer_id
        &&& forall|id: u64| #[trigger]
            self.reservations.contains_key(id) ==> self.reservations[id].car_id == id
    }
}

pub open spec fn car_not_found(id: u64) -> ErrorView {
    ErrorView::NotFound { msg: naming("a car with id="@, id, " not found"@) }
}

pub open spec fn car_update_not_found(id: u64) -> ErrorView {
    ErrorView::NotFound { msg: naming("couldn't update a car with id="@, id, ". car not found"@) }
}

pub open spec fn car_update_refused(id: u64) -> ErrorView {
    ErrorView::NotAuthorized {
        msg: naming("Unauthorized to update car with id="@, id, ". car not found"@),
    }
}

pub open spec fn car_delete_not_found(id: u64) -> ErrorView {
    ErrorView::NotFound { msg: naming("couldn't delete a car with id="@, id, ". car not found."@) }
}

pub open spec fn car_delete_refused(id: u64) -> ErrorView {
    ErrorView::NotAuthorized {
        msg: naming("Unauthorized to delete car with id="@, id, ". car not found"@),
    }
}

pub open spec fn customer_not_found(id: u64) -> ErrorView {
    ErrorView::NotFound { msg: naming("a customer with id="@, id, " not found"@) }
}

pub open spec fn already_booked(car_id: u64) -> ErrorView {
    ErrorView::AlreadyBooked { msg: naming("Car with id="@, car_id, " is already booked."@) }
}

pub open spec fn parties_not_found() -> ErrorView {
    ErrorView::NotFound { msg: "Car or customer not found for reservation"@ }
}

pub open spec fn reservation_not_found(car_id: u64) -> ErrorView {
    ErrorView::NotFound { msg: naming("a reservation for car_id="@, car_id, " not found"@) }
}

/// The car that a payload makes at `now` for `caller`.
pub open spec fn new_car(id: u64, payload: CarPayloadView, now: u64, caller: Seq<char>) -> CarView {
    CarView {
        id,
        make: payload.make,
        model: payload.model,
        year: payload.year,
        color: payload.color,
        created_at: now,
        updated_at: None,
        owner: caller,
        is_booked: payload.is_booked,
    }
}

/// The car after an update at `now`: identifier, time of creation and owner
/// stay.
pub open spec fn updated_car(car: CarView, payload: CarPayloadView, now: u64) -> CarView {
    CarView {
        id: car.id,
        make: payload.make,
        model: payload.model,
        year: payload.year,
        color: payload.color,
        created_at: car.created_at,
        updated_at: Some(now),
        owner: car.owner,
        is_booked: payload.is_booked,
    }
}

pub open spec fn get_car(state: State, id: u64) -> Result<CarView, ErrorView> {
    if state.cars.contains_key(id) {
        Ok(state.cars[id])
    } else {
        Err(car_not_found(id))
    }
}

pub open spec fn is_booked(state: State, id: u64) -> Result<bool, ErrorView> {
    if state.cars.contains_key(id) {
        Ok(state.cars[id].is_booked)
    } else {
        Err(car_not_found(id))
    }
}

/// Adding a car can be carried out: where the payload is acceptable, an
/// identifier is left and the record is short enough to store.
pub open spec fn can_add_car(
    state: State,
    payload: CarPayloadView,
    now: u64,
    caller: Seq<char>,
) -> bool {
    car_payload_valid(payload) ==> state.next_car_id < u64::MAX && car_fits(
        new_car(state.next_car_id, payload, now, caller),
    )
}

pub open spec fn add_car(state: State, payload: CarPayloadView, now: u64, caller: Seq<char>) -> (
    State,
    Result<CarView, ErrorView>,
) {
    if !car_payload_valid(payload) {
        (state, Err(ErrorView::ValidationErrors))
    } else {
        let car = new_car(state.next_car_id, payload, now, caller);
        (
            State {
                cars: state.cars.insert(car.id, car),
                next_car_id: (state.next_car_id + 1) as u64,
                ..state
            },
            Ok(car),
        )
    }
}

/// Updating a car can be carried out: where the update is due, the record
/// is short enough to store.
pub open spec fn can_update_car(
    state: State,
    id: u64,
    payload: CarPayloadView,
    now: u64,
    caller: Seq<char>,
) -> bool {
    car_payload_valid(payload) && state.cars.contains_key(id) && state.cars[id].owner == caller
        ==> car_fits(updated_car(state.cars[id], payload, now))
}

pub open spec fn update_car(
    state: State,
    id: u64,
    payload: CarPayloadView,
    now: u64,
    caller: Seq<char>,
) -> (State, Result<CarView, ErrorView>) {
    if !car_payload_valid(payload) {
        (state, Err(ErrorView::ValidationErrors))
    } else if !state.cars.contains_key(id) {
        (state, Err(car_update_not_found(id)))
    } else if state.cars[id].owner != caller {
        (state, Err(car_update_refused(id)))
    } else {
        let car = updated_car(state.cars[id], payload, now);
        (State { cars: state.cars.insert(id, car), ..state }, Ok(car))
    }
}

pub open spec fn delete_car(state: State, id: u64, caller: Seq<char>) -> (
    State,
    Result<CarView, ErrorView>,
) {
    if !state.cars.contains_key(id) {
        (state, Err(car_delete_not_found(id)))
    } else if state.cars[id].owner != caller {
        (state, Err(car_delete_refused(id)))
    } else {
        (State { cars: state.cars.remove(id), ..state }, Ok(state.cars[id]))
    }
}

/// The customer that a payload makes.
pub open spec fn new_customer(id: u64, payload: CustomerPayloadView) -> CustomerView {
    CustomerView { id, name: payload.name, contact: payload.contact }
}

/// Adding a customer can be carried out: where the payload is acceptable,
/// an identifier is left and the record is short enough to store.
pub open spec fn can_add_customer(state: State, payload: CustomerPayloadView) -> bool {
    customer_payload_valid(payload) ==> state.next_customer_id < u64::MAX && customer_fits(
        new_customer(state.next_customer_id, payload),
    )
}

pub open spec fn add_customer(state: State, payload: CustomerPayloadView) -> (
    State,
    Result<CustomerView, ErrorView>,
) {
    if !customer_payload_valid(payload) {
        (state, Err(ErrorView::ValidationErrors))
    } else {
        let customer = new_customer(state.next_customer_id, payload);
        (
            State {
                customers: state.customers.insert(customer.id, customer),
                next_customer_id: (state.next_customer_id + 1) as u64,
                ..state
            },
            Ok(customer),
        )
    }
}

pub open spec fn get_customer(state: State, id: u64) -> Result<CustomerView, ErrorView> {
    if state.customers.contains_key(id) {
        Ok(state.customers[id])
    } else {
        Err(customer_not_found(id))
    }
}

pub open spec fn delete_customer(state: State, id: u64) -> (
    State,
    Result<CustomerView, ErrorView>,
) {
    if state.customers.contains_key(id) {
        (State { customers: state.customers.remove(id), ..state }, Ok(state.customers[id]))
    } else {
        (state, Err(customer_not_found(id)))
    }
}

pub open spec fn make_reservation(state: State, car_id: u64, customer_id: u64, now: u64) -> (
    State,
    Result<Reservation, ErrorView>,
) {
    if !state.cars.contains_key(car_id) || !state.customers.contains_key(customer_id) {
        (state, Err(parties_not_found()))
    } else if state.cars[car_id].is_booked {
        (state, Err(already_booked(car_id)))
    } else {
        let reservation = Reservation { car_id, customer_id, reservation_time: now };
        (
            State { reservations: state.reservations.insert(car_id, reservation), ..state },
            Ok(reservation),
        )
    }
}

pub open spec fn get_reservation(state: State, car_id: u64) -> Result<Reservation, ErrorView> {
    if state.reservations.contains_key(car_id) {
        Ok(state.reservations[car_id])
    } else {
        Err(reservation_not_found(car_id))
    }
}

pub open spec fn cancel_reservation(state: State, car_id: u64) -> (State, Result<(), ErrorView>) {
    if state.reservations.contains_key(car_id) {
        (State { reservations: state.reservations.remove(car_id), ..state }, Ok(()))
    } else {
        (state, Err(reservation_not_found(car_id)))
    }
}

/// `report` lists the cars: each of them once, in ascending order of the
/// identifiers, and nothing else.
pub open spec fn lists_cars(cars: Map<u64, CarView>, report: Seq<CarView>) -> bool {
    &&& forall|i: int|
        0 <= i < report.len() ==> cars.contains_key((#[trigger] report[i]).id) && cars[report[i].id]
            == report[i]
    &&& forall|i: int, j: int|
        0 <= i < j < report.len() ==> (#[trigger] report[i]).id < (#[trigger] report[j]).id
    &&& forall|id: u64| #[trigger]
        cars.contains_key(id) ==> exists|i: int|
            0 <= i < report.len() && (#[trigger] report[i]).id == id
}

} // verus!
