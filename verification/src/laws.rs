//! What holds of the service whatever it is asked, proved of the model that
//! every operation of the store is held to.

use crate::codec::{
    car_bytes, car_texts_ok, customer_bytes, customer_texts_ok, lemma_car_bytes_unique,
    lemma_car_round_trip, lemma_customer_bytes_unique, lemma_customer_round_trip,
    lemma_reservation_bytes_unique, lemma_reservation_round_trip, parse_car, parse_customer,
    parse_reservation, reservation_bytes,
};
use crate::model::{
    add_car, add_customer, already_booked, can_add_car, can_add_customer, can_update_car,
    cancel_reservation, car_delete_refused, car_update_refused, delete_car, delete_customer,
    get_car, lists_cars, make_reservation, update_car, State,
};
use crate::records::{
    outcome, Car, CarPayloadView, CarView, CustomerPayloadView, CustomerView, Error, ErrorView,
    Reservation,
};
use crate::rules::{car_payload_valid, customer_payload_valid};
use crate::service::RentalStore;
use vstd::prelude::*;

verus! {

/// One request that may change the store.
pub enum Call {
    AddCar { payload: CarPayloadView, now: u64, caller: Seq<char> },
    UpdateCar { id: u64, payload: CarPayloadView, now: u64, caller: Seq<char> },
    DeleteCar { id: u64, caller: Seq<char> },
    AddCustomer { customer: CustomerPayloadView },
    DeleteCustomer { id: u64 },
    MakeReservation { car_id: u64, customer_id: u64, now: u64 },
    CancelReservation { car_id: u64 },
}

/// The request can be carried out in `state`.
pub open spec fn admitted(state: State, call: Call) -> bool {
    match call {
        Call::AddCar { payload, now, caller } => can_add_car(state, payload, now, caller),
        Call::UpdateCar { id, payload, now, caller } => can_update_car(
            state,
            id,
            payload,
            now,
            caller,
        ),
        Call::AddCustomer { customer } => can_add_customer(state, customer),
        _ => true,
    }
}

/// The state that the request leaves.
pub open spec fn after(state: State, call: Call) -> State {
    match call {
        Call::AddCar { payload, now, caller } => add_car(state, payload, now, caller).0,
        Call::UpdateCar { id, payload, now, caller } => update_car(
            state,
            id,
            payload,
            now,
            caller,
        ).0,
        Call::DeleteCar { id, caller } => delete_car(state, id, caller).0,
        Call::AddCustomer { customer } => add_customer(state, customer).0,
        Call::DeleteCustomer { id } => delete_customer(state, id).0,
        Call::MakeReservation { car_id, customer_id, now } => make_reservation(
            state,
            car_id,
            customer_id,
            now,
        ).0,
        Call::CancelReservation { car_id } => cancel_reservation(state, car_id).0,
    }
}

/// Every request of the sequence can be carried out in the state that the
/// ones before it leave.
pub open spec fn all_admitted(state: State, calls: Seq<Call>) -> bool
    decreases calls.len(),
{
    calls.len() == 0 || (admitted(state, calls[0]) && all_admitted(
        after(state, calls[0]),
        calls.drop_first(),
    ))
}

/// The state that the requests leave, made one after the other.
pub open spec fn after_all(state: State, calls: Seq<Call>) -> State
    decreases calls.len(),
{
    if calls.len() == 0 {
        state
    } else {
        after_all(after(state, calls[0]), calls.drop_first())
    }
}

/// Two reads of a car with nothing written between them give the same
/// answer.
pub proof fn law_reads_repeat(
    store: RentalStore,
    id: u64,
    first: Result<Car, Error>,
    second: Result<Car, Error>,
)
    requires
        outcome(first) == get_car(store@, id),
        outcome(second) == get_car(store@, id),
    ensures
        outcome(first) == outcome(second),
{
}

/// A request keeps the state well formed.
pub proof fn law_well_formed_kept(state: State, call: Call)
    requires
        state.well_formed(),
        admitted(state, call),
    ensures
        after(state, call).well_formed(),
{
}

/// No request lowers a counter, and none but a successful addition raises
/// it: identifiers are given out once.
pub proof fn law_counters_never_fall(state: State, calls: Seq<Call>)
    requires
        all_admitted(state, calls),
    ensures
        after_all(state, calls).next_car_id >= state.next_car_id,
        after_all(state, calls).next_customer_id >= state.next_customer_id,
    decreases calls.len(),
{
    if calls.len() > 0 {
        law_counters_never_fall(after(state, calls[0]), calls.drop_first());
    }
}

/// A car that is added gets the identifier that the counter holds, so the
/// first car of an empty store gets 0; and of two cars added, the later
/// gets the greater identifier, whatever was asked in between, deletions
/// included.
pub proof fn law_car_ids_increase(
    state: State,
    first: CarPayloadView,
    first_now: u64,
    first_caller: Seq<char>,
    between: Seq<Call>,
    second: CarPayloadView,
    second_now: u64,
    second_caller: Seq<char>,
)
    requires
        can_add_car(state, first, first_now, first_caller),
        add_car(state, first, first_now, first_caller).1 is Ok,
        all_admitted(add_car(state, first, first_now, first_caller).0, between),
        can_add_car(
            after_all(add_car(state, first, first_now, first_caller).0, between),
            second,
            second_now,
            second_caller,
        ),
        add_car(
            after_all(add_car(state, first, first_now, first_caller).0, between),
            second,
            second_now,
            second_caller,
        ).1 is Ok,
    ensures
        add_car(state, first, first_now, first_caller).1->Ok_0.id == state.next_car_id,
        add_car(state, first, first_now, first_caller).1->Ok_0.id < add_car(
            after_all(add_car(state, first, first_now, first_caller).0, between),
            second,
            second_now,
            second_caller,
        ).1->Ok_0.id,
{
    law_counters_never_fall(add_car(state, first, first_now, first_caller).0, between);
}

/// In a well-formed state the identifier of a car that is added is not in
/// use: the new car takes the place of no other.
pub proof fn law_new_id_is_unused(
    state: State,
    payload: CarPayloadView,
    now: u64,
    caller: Seq<char>,
)
    requires
        state.well_formed(),
        add_car(state, payload, now, caller).1 is Ok,
    ensures
        !state.cars.contains_key(add_car(state, payload, now, caller).1->Ok_0.id),
{
}

/// Decoding what was encoded gives the record back, so encoding it again
/// gives the same bytes.
pub proof fn law_car_round_trip(car: CarView)
    requires
        car_texts_ok(car),
    ensures
        parse_car(car_bytes(car)) == Some(car),
        car_bytes(parse_car(car_bytes(car)).unwrap()) == car_bytes(car),
{
    lemma_car_round_trip(car);
}

/// Decoding what was encoded gives the record back, so encoding it again
/// gives the same bytes.
pub proof fn law_customer_round_trip(customer: CustomerView)
    requires
        customer_texts_ok(customer),
    ensures
        parse_customer(customer_bytes(customer)) == Some(customer),
        customer_bytes(parse_customer(customer_bytes(customer)).unwrap()) == customer_bytes(
            customer,
        ),
{
    lemma_customer_round_trip(customer);
}

/// Decoding what was encoded gives the record back, so encoding it again
/// gives the same bytes.
pub proof fn law_reservation_round_trip(reservation: Reservation)
    ensures
        parse_reservation(reservation_bytes(reservation)) == Some(reservation),
        reservation_bytes(parse_reservation(reservation_bytes(reservation)).unwrap())
            == reservation_bytes(reservation),
{
    lemma_reservation_round_trip(reservation);
}

/// Bytes decode to a car exactly when they are its encoding: decoding loses
/// nothing and accepts nothing else.
pub proof fn law_car_decoding_is_exact(bytes: Seq<u8>, car: CarView)
    requires
        car_texts_ok(car),
    ensures
        parse_car(bytes) == Some(car) <==> bytes == car_bytes(car),
{
    lemma_car_round_trip(car);
    if parse_car(bytes) is Some {
        lemma_car_bytes_unique(bytes);
    }
}

/// Bytes decode to a customer exactly when they are its encoding.
pub proof fn law_customer_decoding_is_exact(bytes: Seq<u8>, customer: CustomerView)
    requires
        customer_texts_ok(customer),
    ensures
        parse_customer(bytes) == Some(customer) <==> bytes == customer_bytes(customer),
{
    lemma_customer_round_trip(customer);
    if parse_customer(bytes) is Some {
        lemma_customer_bytes_unique(bytes);
    }
}

/// Bytes decode to a reservation exactly when they are its encoding.
pub proof fn law_reservation_decoding_is_exact(bytes: Seq<u8>, reservation: Reservation)
    ensures
        parse_reservation(bytes) == Some(reservation) <==> bytes == reservation_bytes(reservation),
{
    lemma_reservation_round_trip(reservation);
    if parse_reservation(bytes) is Some {
        lemma_reservation_bytes_unique(bytes);
    }
}

/// A caller who does not own the car changes nothing: a deletion is
/// refused as not authorized, and so is an update with an acceptable
/// payload.
pub proof fn law_only_the_owner_mutates(
    state: State,
    id: u64,
    payload: CarPayloadView,
    now: u64,
    caller: Seq<char>,
)
    requires
        state.cars.contains_key(id),
        state.cars[id].owner != caller,
    ensures
        delete_car(state, id, caller) == (state, Err::<CarView, ErrorView>(car_delete_refused(id))),
        update_car(state, id, payload, now, caller).0 == state,
        car_payload_valid(payload) ==> update_car(state, id, payload, now, caller).1 == Err::<
            CarView,
            ErrorView,
        >(car_update_refused(id)),
{
}

/// An update by the owner leaves identifier, time of creation and owner as
/// they were.
pub proof fn law_update_keeps_identity(
    state: State,
    id: u64,
    payload: CarPayloadView,
    now: u64,
    caller: Seq<char>,
)
    requires
        state.well_formed(),
        update_car(state, id, payload, now, caller).1 is Ok,
    ensures
        ({
            let car = update_car(state, id, payload, now, caller).1->Ok_0;
            &&& car.id == id
            &&& car.created_at == state.cars[id].created_at
            &&& car.owner == state.cars[id].owner
            &&& car.updated_at == Some(now)
        }),
{
}

/// A car that is marked as booked is not reserved: where car and customer
/// exist the request is refused as already booked, and no reservation is
/// written.
pub proof fn law_booked_car_is_not_reserved(state: State, car_id: u64, customer_id: u64, now: u64)
    requires
        state.cars.contains_key(car_id),
        state.cars[car_id].is_booked,
    ensures
        make_reservation(state, car_id, customer_id, now).0 == state,
        state.customers.contains_key(customer_id) ==> make_reservation(
            state,
            car_id,
            customer_id,
            now,
        ).1 == Err::<Reservation, ErrorView>(already_booked(car_id)),
{
}

/// A payload that is not acceptable changes nothing: no record is written
/// and no identifier is used up.
pub proof fn law_refused_payload_changes_nothing(
    state: State,
    id: u64,
    car: CarPayloadView,
    customer: CustomerPayloadView,
    now: u64,
    caller: Seq<char>,
)
    ensures
        !car_payload_valid(car) ==> add_car(state, car, now, caller) == (
            state,
            Err::<CarView, ErrorView>(ErrorView::ValidationErrors),
        ),
        !car_payload_valid(car) ==> update_car(state, id, car, now, caller) == (
            state,
            Err::<CarView, ErrorView>(ErrorView::ValidationErrors),
        ),
        !customer_payload_valid(customer) ==> add_customer(state, customer) == (
            state,
            Err::<CustomerView, ErrorView>(ErrorView::ValidationErrors),
        ),
{
}

/// Two listings of the same cars agree at every place that both have.
proof fn lemma_listings_agree(
    cars: Map<u64, CarView>,
    one: Seq<CarView>,
    other: Seq<CarView>,
    at: int,
)
    requires
        lists_cars(cars, one),
        lists_cars(cars, other),
        0 <= at < one.len(),
        at < other.len(),
    ensures
        one[at] == other[at],
    decreases at,
{
    assert forall|before: int| 0 <= before < at implies one[before] == other[before] by {
        lemma_listings_agree(cars, one, other, before);
    }
    // Each of the two identifiers is listed in the other sequence, and not
    // before `at`, where the sequences agree: so neither is the smaller.
    let first = one[at].id;
    let second = other[at].id;
    assert(cars.contains_key(first));
    assert(cars.contains_key(second));
    let in_other = choose|i: int| 0 <= i < other.len() && (#[trigger] other[i]).id == first;
    let in_one = choose|i: int| 0 <= i < one.len() && (#[trigger] one[i]).id == second;
    if in_other < at {
        assert(one[in_other] == other[in_other]);
        assert(one[in_other].id < one[at].id);
    }
    if in_one < at {
        assert(one[in_one] == other[in_one]);
        assert(other[in_one].id < other[at].id);
    }
    if in_other > at {
        assert(other[at].id < other[in_other].id);
    }
    if in_one > at {
        assert(one[at].id < one[in_one].id);
    }
    assert(first == second);
}

/// The cars have one listing only: what `lists_cars` says of a report
/// leaves no choice.
pub proof fn law_listing_is_unique(cars: Map<u64, CarView>, one: Seq<CarView>, other: Seq<CarView>)
    requires
        lists_cars(cars, one),
        lists_cars(cars, other),
    ensures
        one == other,
{
    if one.len() < other.len() {
        let extra = other[one.len() as int].id;
        assert(cars.contains_key(extra));
        let i = choose|i: int| 0 <= i < one.len() && (#[trigger] one[i]).id == extra;
        lemma_listings_agree(cars, one, other, i);
        assert(other[i].id < other[one.len() as int].id);
    }
    if other.len() < one.len() {
        let extra = one[other.len() as int].id;
        assert(cars.contains_key(extra));
        let i = choose|i: int| 0 <= i < other.len() && (#[trigger] other[i]).id == extra;
        lemma_listings_agree(cars, one, other, i);
        assert(one[i].id < one[other.len() as int].id);
    }
    assert forall|i: int| 0 <= i < one.len() implies one[i] == other[i] by {
        lemma_listings_agree(cars, one, other, i);
    }
    assert(one =~= other);
}

} // verus!
