//! The store and its operations on cars, customers and reservations.

use crate::codec::{
    car_fits, car_record_fits, customer_fits, customer_record_fits, decode_car, decode_customer,
    decode_reservation, encode_car, encode_customer, encode_reservation, parse_car,
    parse_customer, parse_reservation,
};
use crate::durable::{
    counter_get, counter_value, map_entries, map_get, map_insert, map_records, map_remove,
    open_counter, open_map, region, IdCounter, RecordMap, Regions,
};
use crate::model;
use crate::model::State;
use crate::records::{
    outcome, Car, CarPayload, CarView, Customer, CustomerPayload, CustomerView, Error,
    Reservation,
};
use crate::rules::{check_car_payload, check_customer_payload};
use crate::text::message_naming;
use vstd::prelude::*;
use vstd::string::*;

verus! {

/// The identifier of the first car and of the first customer.
pub const FIRST_ID: u64 = 0;

/// The region of the counter that numbers the cars.
pub const CAR_ID_REGION: u8 = 0;

/// The region of the cars.
pub const CAR_REGION: u8 = 1;

/// The region of the customers.
pub const CUSTOMER_REGION: u8 = 2;

/// The region of the reservations.
pub const RESERVATION_REGION: u8 = 3;

/// The region of the counter that numbers the customers.
pub const CUSTOMER_ID_REGION: u8 = 4;

/// The cars, customers and reservations of one rental service, each kind in
/// a region of its own, with the two counters that number cars and
/// customers.
pub struct RentalStore {
    regions: Regions,
    car_ids: IdCounter,
    cars: RecordMap,
    customers: RecordMap,
    reservations: RecordMap,
    customer_ids: IdCounter,
}

/// The record under `id` is a car with that identifier, below `limit`.
pub open spec fn car_sound(records: Map<u64, Seq<u8>>, limit: u64, id: u64) -> bool {
    parse_car(records[id]) matches Some(car) && car.id == id && id < limit
}

/// The record under `id` is a customer with that identifier, below `limit`.
pub open spec fn customer_sound(records: Map<u64, Seq<u8>>, limit: u64, id: u64) -> bool {
    parse_customer(records[id]) matches Some(customer) && customer.id == id && id < limit
}

/// The record under `id` is a reservation of the car `id`.
pub open spec fn reservation_sound(records: Map<u64, Seq<u8>>, id: u64) -> bool {
    parse_reservation(records[id]) matches Some(reservation) && reservation.car_id == id
}

pub open spec fn cars_sound(records: Map<u64, Seq<u8>>, limit: u64) -> bool {
    forall|id: u64| records.contains_key(id) ==> #[trigger] car_sound(records, limit, id)
}

pub open spec fn customers_sound(records: Map<u64, Seq<u8>>, limit: u64) -> bool {
    forall|id: u64| records.contains_key(id) ==> #[trigger] customer_sound(records, limit, id)
}

pub open spec fn reservations_sound(records: Map<u64, Seq<u8>>) -> bool {
    forall|id: u64| records.contains_key(id) ==> #[trigger] reservation_sound(records, id)
}

/// The cars that the records encode.
pub open spec fn cars_of(records: Map<u64, Seq<u8>>) -> Map<u64, CarView> {
    Map::new(|id: u64| records.contains_key(id), |id: u64| parse_car(records[id]).unwrap())
}

/// The customers that the records encode.
pub open spec fn customers_of(records: Map<u64, Seq<u8>>) -> Map<u64, CustomerView> {
    Map::new(|id: u64| records.contains_key(id), |id: u64| parse_customer(records[id]).unwrap())
}

/// The reservations that the records encode.
pub open spec fn reservations_of(records: Map<u64, Seq<u8>>) -> Map<u64, Reservation> {
    Map::new(
        |id: u64| records.contains_key(id),
        |id: u64| parse_reservation(records[id]).unwrap(),
    )
}

/// The state that the store holds: its records decoded, and what its
/// counters hold.
impl View for RentalStore {
    type V = State;

    closed spec fn view(&self) -> State {
        State {
            cars: cars_of(map_records(self.cars)),
            customers: customers_of(map_records(self.customers)),
            reservations: reservations_of(map_records(self.reservations)),
            next_car_id: counter_value(self.car_ids),
            next_customer_id: counter_value(self.customer_ids),
        }
    }
}

fn cars_checked(cars: &RecordMap, limit: u64) -> (ok: bool)
    ensures
        ok == cars_sound(map_records(*cars), limit),
{
    let entries = map_entries(cars);
    let mut i: usize = 0;
    while i < entries.len()
        invariant
            0 <= i <= entries@.len(),
            forall|j: int|
                0 <= j < entries@.len() ==> map_records(*cars).contains_key(
                    #[trigger] entries@[j].0,
                ) && map_records(*cars)[entries@[j].0] == entries@[j].1@,
            forall|j: int|
                0 <= j < i ==> car_sound(map_records(*cars), limit, #[trigger] entries@[j].0),
        decreases entries@.len() - i,
    {
        let id = entries[i].0;
        let sound = match decode_car(entries[i].1.as_slice()) {
            Some(car) => car.id == id && id < limit,
            None => false,
        };
        if !sound {
            assert(!car_sound(map_records(*cars), limit, id));
            return false;
        }
        i += 1;
    }
    assert forall|id: u64| map_records(*cars).contains_key(id) implies #[trigger] car_sound(
        map_records(*cars),
        limit,
        id,
    ) by {
        let j = choose|j: int| 0 <= j < entries@.len() && (#[trigger] entries@[j]).0 == id;
        assert(car_sound(map_records(*cars), limit, entries@[j].0));
    }
    true
}

fn customers_checked(customers: &RecordMap, limit: u64) -> (ok: bool)
    ensures
        ok == customers_sound(map_records(*customers), limit),
{
    let entries = map_entries(customers);
    let mut i: usize = 0;
    while i < entries.len()
        invariant
            0 <= i <= entries@.len(),
            forall|j: int|
                0 <= j < entries@.len() ==> map_records(*customers).contains_key(
                    #[trigger] entries@[j].0,
                ) && map_records(*customers)[entries@[j].0] == entries@[j].1@,
            forall|j: int|
                0 <= j < i ==> customer_sound(
                    map_records(*customers),
                    limit,
                    #[trigger] entries@[j].0,
                ),
        decreases entries@.len() - i,
    {
        let id = entries[i].0;
        let sound = match decode_customer(entries[i].1.as_slice()) {
            Some(customer) => customer.id == id && id < limit,
            None => false,
        };
        if !sound {
            assert(!customer_sound(map_records(*customers), limit, id));
            return false;
        }
        i += 1;
    }
    assert forall|id: u64|
        map_records(*customers).contains_key(id) implies #[trigger] customer_sound(
        map_records(*customers),
        limit,
        id,
    ) by {
        let j = choose|j: int| 0 <= j < entries@.len() && (#[trigger] entries@[j]).0 == id;
        assert(customer_sound(map_records(*customers), limit, entries@[j].0));
    }
    true
}

fn reservations_checked(reservations: &RecordMap) -> (ok: bool)
    ensures
        ok == reservations_sound(map_records(*reservations)),
{
    let entries = map_entries(reservations);
    let mut i: usize = 0;
    while i < entries.len()
        invariant
            0 <= i <= entries@.len(),
            forall|j: int|
                0 <= j < entries@.len() ==> map_records(*reservations).contains_key(
                    #[trigger] entries@[j].0,
                ) && map_records(*reservations)[entries@[j].0] == entries@[j].1@,
            forall|j: int|
                0 <= j < i ==> reservation_sound(
                    map_records(*reservations),
                    #[trigger] entries@[j].0,
                ),
        decreases entries@.len() - i,
    {
        let id = entries[i].0;
        let sound = match decode_reservation(entries[i].1.as_slice()) {
            Some(reservation) => reservation.car_id == id,
            None => false,
        };
        if !sound {
            assert(!reservation_sound(map_records(*reservations), id));
            return false;
        }
        i += 1;
    }
    assert forall|id: u64|
        map_records(*reservations).contains_key(id) implies #[trigger] reservation_sound(
        map_records(*reservations),
        id,
    ) by {
        let j = choose|j: int| 0 <= j < entries@.len() && (#[trigger] entries@[j]).0 == id;
        assert(reservation_sound(map_records(*reservations), entries@[j].0));
    }
    true
}

impl RentalStore {
    /// The store is sound: every record in memory decodes, is filed under
    /// its own identifier, and has an identifier below the counter of its
    /// kind. `init` gives such a store and every operation keeps it so.
    pub closed spec fn wf(&self) -> bool {
        &&& cars_sound(map_records(self.cars), counter_value(self.car_ids))
        &&& customers_sound(map_records(self.customers), counter_value(self.customer_ids))
        &&& reservations_sound(map_records(self.reservations))
    }

    /// The regions that the store was opened in.
    pub closed spec fn regions(&self) -> Regions {
        self.regions
    }

    /// A sound store holds a well-formed state.
    pub proof fn lemma_well_formed(&self)
        requires
            self.wf(),
        ensures
            self@.well_formed(),
    {
        assert forall|id: u64| #[trigger] self@.cars.contains_key(id) implies self@.cars[id].id
            == id && id < self@.next_car_id by {
            assert(car_sound(map_records(self.cars), counter_value(self.car_ids), id));
        }
        assert forall|id: u64| #[trigger]
            self@.customers.contains_key(id) implies self@.customers[id].id == id && id
            < self@.next_customer_id by {
            assert(customer_sound(
                map_records(self.customers),
                counter_value(self.customer_ids),
                id,
            ));
        }
        assert forall|id: u64| #[trigger]
            self@.reservations.contains_key(id) implies self@.reservations[id].car_id == id by {
            assert(reservation_sound(map_records(self.reservations), id));
        }
    }

    /// Opens the store in the default memory.
    pub fn init() -> (store: Option<RentalStore>)
        ensures
            store matches Some(s) ==> s.wf(),
    {
        RentalStore::open(Regions::new())
    }

    /// Opens the store, each structure in its region, and examines what the
    /// regions hold. `None` where a counter cannot be opened or a stored
    /// record is not sound. In regions that hold nothing yet the store is
    /// empty and both counters are at `FIRST_ID`; in those that a store was
    /// closed on, the store is as it was.
    pub fn open(regions: Regions) -> (store: Option<RentalStore>)
        ensures
            store matches Some(s) ==> s.wf() && s.regions() == regions,
    {
        let car_ids = match open_counter(region(&regions, CAR_ID_REGION), FIRST_ID) {
            Some(counter) => counter,
            None => { return None; },
        };
        let cars = open_map(region(&regions, CAR_REGION));
        let customers = open_map(region(&regions, CUSTOMER_REGION));
        let reservations = open_map(region(&regions, RESERVATION_REGION));
        let customer_ids = match open_counter(region(&regions, CUSTOMER_ID_REGION), FIRST_ID) {
            Some(counter) => counter,
            None => { return None; },
        };
        RentalStore::assemble(regions, car_ids, cars, customers, reservations, customer_ids)
    }

    /// Makes a store of the structures if what they hold is sound: every
    /// record decodes, is filed under its own identifier, and has an
    /// identifier below the counter of its kind.
    pub fn assemble(
        regions: Regions,
        car_ids: IdCounter,
        cars: RecordMap,
        customers: RecordMap,
        reservations: RecordMap,
        customer_ids: IdCounter,
    ) -> (store: Option<RentalStore>)
        ensures
            store is Some == (cars_sound(map_records(cars), counter_value(car_ids))
                && customers_sound(map_records(customers), counter_value(customer_ids))
                && reservations_sound(map_records(reservations))),
            store matches Some(s) ==> s.wf() && s.regions() == regions && s@ == (State {
                cars: cars_of(map_records(cars)),
                customers: customers_of(map_records(customers)),
                reservations: reservations_of(map_records(reservations)),
                next_car_id: counter_value(car_ids),
                next_customer_id: counter_value(customer_ids),
            }),
    {
        let sound = cars_checked(&cars, counter_get(&car_ids)) && customers_checked(
            &customers,
            counter_get(&customer_ids),
        ) && reservations_checked(&reservations);
        if sound {
            Some(RentalStore { regions, car_ids, cars, customers, reservations, customer_ids })
        } else {
            None
        }
    }

    /// Closes the store and hands back its regions, with everything that
    /// was stored in them.
    pub fn close(self) -> (regions: Regions)
        ensures
            regions == self.regions(),
    {
        self.regions
    }

    /// The identifier that the next car gets.
    pub fn next_car_id(&self) -> (id: u64)
        ensures
            id == self@.next_car_id,
    {
        self.car_ids.current()
    }

    /// The identifier that the next customer gets.
    pub fn next_customer_id(&self) -> (id: u64)
        ensures
            id == self@.next_customer_id,
    {
        self.customer_ids.current()
    }

    /// The car stored under `id`, if there is one.
    pub fn _get_car(&self, id: &u64) -> (car: Option<Car>)
        requires
            self.wf(),
        ensures
            match car {
                Some(c) => self@.cars.contains_key(*id) && self@.cars[*id] == c@,
                None => !self@.cars.contains_key(*id),
            },
    {
        match map_get(&self.cars, *id) {
            Some(bytes) => {
                assert(car_sound(map_records(self.cars), counter_value(self.car_ids), *id));
                decode_car(bytes.as_slice())
            },
            None => None,
        }
    }

    /// Stores the car under its identifier, in place of what was there.
    pub fn do_insert_car(&mut self, car: &Car)
        requires
            old(self).wf(),
            car_fits(car@),
            car@.id < old(self)@.next_car_id,
        ensures
            final(self).wf(),
            final(self)@ == (State { cars: old(self)@.cars.insert(car@.id, car@), ..old(self)@ }),
    {
        let bytes = encode_car(car);
        let _ = map_insert(&mut self.cars, car.id, &bytes);
        proof {
            let limit = counter_value(self.car_ids);
            assert forall|id: u64| map_records(self.cars).contains_key(id) implies #[trigger] car_sound(
                map_records(self.cars),
                limit,
                id,
            ) by {
                if id != car.id {
                    assert(car_sound(map_records(old(self).cars), limit, id));
                }
            }
            assert(self@.cars =~= old(self)@.cars.insert(car@.id, car@));
        }
    }

    /// The car with the given identifier.
    pub fn get_car(&self, id: u64) -> (result: Result<Car, Error>)
        requires
            self.wf(),
        ensures
            outcome(result) == model::get_car(self@, id),
    {
        match self._get_car(&id) {
            Some(car) => Ok(car),
            None => Err(Error::NotFound { msg: message_naming("a car with id=", id, " not found") }),
        }
    }

    /// Adds a car for `caller` at time `now`, under the next identifier.
    /// A payload that is not acceptable is refused and uses up no
    /// identifier.
    pub fn add_car(&mut self, car: CarPayload, now: u64, caller: &String) -> (result: Result<
        Car,
        Error,
    >)
        requires
            old(self).wf(),
            model::can_add_car(old(self)@, car@, now, caller@),
        ensures
            final(self).wf(),
            final(self)@ == model::add_car(old(self)@, car@, now, caller@).0,
            outcome(result) == model::add_car(old(self)@, car@, now, caller@).1,
    {
        if let Err(errors) = check_car_payload(&car) {
            return Err(Error::ValidationErrors { errors });
        }
        let id = self.car_ids.next();
        let car = Car {
            id,
            make: car.make,
            model: car.model,
            year: car.year,
            color: car.color,
            created_at: now,
            updated_at: None,
            owner: caller.clone(),
            is_booked: car.is_booked,
        };
        proof {
            assert forall|key: u64| map_records(self.cars).contains_key(key) implies #[trigger] car_sound(
                map_records(self.cars),
                counter_value(self.car_ids),
                key,
            ) by {
                assert(car_sound(map_records(self.cars), id, key));
            }
        }
        self.do_insert_car(&car);
        Ok(car)
    }

    /// Replaces make, model, year, color and booking flag of the car with
    /// those of the payload and stamps the update with `now`. Only the
    /// car's owner may do so.
    pub fn update_car(&mut self, id: u64, payload: CarPayload, now: u64, caller: &String) -> (result:
        Result<Car, Error>)
        requires
            old(self).wf(),
            model::can_update_car(old(self)@, id, payload@, now, caller@),
        ensures
            final(self).wf(),
            final(self)@ == model::update_car(old(self)@, id, payload@, now, caller@).0,
            outcome(result) == model::update_car(old(self)@, id, payload@, now, caller@).1,
    {
        if let Err(errors) = check_car_payload(&payload) {
            return Err(Error::ValidationErrors { errors });
        }
        match self._get_car(&id) {
            Some(car) => {
                if !_check_if_owner(&car, caller) {
                    return Err(
                        Error::NotAuthorized {
                            msg: message_naming(
                                "Unauthorized to update car with id=",
                                id,
                                ". car not found",
                            ),
                        },
                    );
                }
                proof {
                    self.lemma_well_formed();
                }
                let car = Car {
                    id: car.id,
                    make: payload.make,
                    model: payload.model,
                    year: payload.year,
                    color: payload.color,
                    created_at: car.created_at,
                    updated_at: Some(now),
                    owner: car.owner,
                    is_booked: payload.is_booked,
                };
                self.do_insert_car(&car);
                Ok(car)
            },
            None => Err(
                Error::NotFound {
                    msg: message_naming("couldn't update a car with id=", id, ". car not found"),
                },
            ),
        }
    }

    /// Whether the car is marked as booked.
    pub fn is_booked(&self, id: u64) -> (result: Result<bool, Error>)
        requires
            self.wf(),
        ensures
            outcome(result) == model::is_booked(self@, id),
    {
        match self._get_car(&id) {
            Some(car) => Ok(car.is_booked),
            None => Err(Error::NotFound { msg: message_naming("a car with id=", id, " not found") }),
        }
    }

    /// Removes the car and hands it back. Only the car's owner may do so.
    pub fn delete_car(&mut self, id: u64, caller: &String) -> (result: Result<Car, Error>)
        requires
            old(self).wf(),
        ensures
            final(self).wf(),
            final(self)@ == model::delete_car(old(self)@, id, caller@).0,
            outcome(result) == model::delete_car(old(self)@, id, caller@).1,
    {
        match self._get_car(&id) {
            Some(car) => {
                if !_check_if_owner(&car, caller) {
                    return Err(
                        Error::NotAuthorized {
                            msg: message_naming(
                                "Unauthorized to delete car with id=",
                                id,
                                ". car not found",
                            ),
                        },
                    );
                }
                let _ = map_remove(&mut self.cars, id);
                proof {
                    let limit = counter_value(self.car_ids);
                    assert forall|key: u64|
                        map_records(self.cars).contains_key(key) implies #[trigger] car_sound(
                        map_records(self.cars),
                        limit,
                        key,
                    ) by {
                        assert(car_sound(map_records(old(self).cars), limit, key));
                    }
                    assert(self@.cars =~= old(self)@.cars.remove(id));
                }
                Ok(car)
            },
            None => Err(
                Error::NotFound {
                    msg: message_naming("couldn't delete a car with id=", id, ". car not found."),
                },
            ),
        }
    }

    /// Every car, in ascending order of the identifiers.
    pub fn generate_report(&self) -> (report: Vec<Car>)
        requires
            self.wf(),
        ensures
            model::lists_cars(self@.cars, report@.map_values(|car: Car| car@)),
    {
        let entries = map_entries(&self.cars);
        let mut report: Vec<Car> = Vec::new();
        let mut i: usize = 0;
        while i < entries.len()
            invariant
                0 <= i <= entries@.len(),
                self.wf(),
                report@.len() == i,
                forall|j: int|
                    0 <= j < entries@.len() ==> map_records(self.cars).contains_key(
                        #[trigger] entries@[j].0,
                    ) && map_records(self.cars)[entries@[j].0] == entries@[j].1@,
                forall|j: int|
                    0 <= j < i ==> (#[trigger] report@[j])@.id == entries@[j].0 && self@.cars[entries@[j].0]
                        == report@[j]@,
            decreases entries@.len() - i,
        {
            let id = entries[i].0;
            assert(car_sound(map_records(self.cars), counter_value(self.car_ids), id));
            match decode_car(entries[i].1.as_slice()) {
                Some(car) => {
                    report.push(car);
                },
                None => {
                    assert(false);
                },
            }
            i += 1;
        }
        proof {
            let listed = report@.map_values(|car: Car| car@);
            assert forall|j: int| 0 <= j < listed.len() implies self@.cars.contains_key(
                (#[trigger] listed[j]).id,
            ) && self@.cars[listed[j].id] == listed[j] by {
                assert(report@[j]@.id == entries@[j].0);
            }
            assert forall|j: int, k: int| 0 <= j < k < listed.len() implies (#[trigger] listed[j]).id
                < (#[trigger] listed[k]).id by {
                assert(report@[j]@.id == entries@[j].0);
                assert(report@[k]@.id == entries@[k].0);
            }
            assert forall|id: u64| #[trigger] self@.cars.contains_key(id) implies exists|j: int|
                0 <= j < listed.len() && (#[trigger] listed[j]).id == id by {
                let j = choose|j: int| 0 <= j < entries@.len() && (#[trigger] entries@[j]).0 == id;
                assert(report@[j]@.id == entries@[j].0);
                assert(listed[j].id == id);
            }
        }
        report
    }

    /// Adds a car like `add_car`, after testing that it can be carried out:
    /// `None`, with the store as it was, where the counter is used up or the
    /// record would be too long to store.
    pub fn checked_add_car(&mut self, car: CarPayload, now: u64, caller: &String) -> (result:
        Option<Result<Car, Error>>)
        requires
            old(self).wf(),
        ensures
            final(self).wf(),
            match result {
                Some(added) => model::can_add_car(old(self)@, car@, now, caller@) && final(self)@
                    == model::add_car(old(self)@, car@, now, caller@).0 && outcome(added)
                    == model::add_car(old(self)@, car@, now, caller@).1,
                None => !model::can_add_car(old(self)@, car@, now, caller@) && final(self)@ == old(self)@,
            },
    {
        if check_car_payload(&car).is_ok() {
            let id = self.car_ids.current();
            if id == u64::MAX {
                return None;
            }
            let candidate = Car {
                id,
                make: car.make.clone(),
                model: car.model.clone(),
                year: car.year,
                color: car.color.clone(),
                created_at: now,
                updated_at: None,
                owner: caller.clone(),
                is_booked: car.is_booked,
            };
            if !car_record_fits(&candidate) {
                return None;
            }
        }
        Some(self.add_car(car, now, caller))
    }

    /// Updates a car like `update_car`, after testing that it can be carried
    /// out: `None`, with the store as it was, where the record would be too
    /// long to store.
    pub fn checked_update_car(
        &mut self,
        id: u64,
        payload: CarPayload,
        now: u64,
        caller: &String,
    ) -> (result: Option<Result<Car, Error>>)
        requires
            old(self).wf(),
        ensures
            final(self).wf(),
            match result {
                Some(updated) => model::can_update_car(old(self)@, id, payload@, now, caller@)
                    && final(self)@ == model::update_car(old(self)@, id, payload@, now, caller@).0
                    && outcome(updated) == model::update_car(
                    old(self)@,
                    id,
                    payload@,
                    now,
                    caller@,
                ).1,
                None => !model::can_update_car(old(self)@, id, payload@, now, caller@) && final(self)@ == old(self)@,
            },
    {
        if check_car_payload(&payload).is_ok() {
            if let Some(car) = self._get_car(&id) {
                if _check_if_owner(&car, caller) {
                    let candidate = Car {
                        id: car.id,
                        make: payload.make.clone(),
                        model: payload.model.clone(),
                        year: payload.year,
                        color: payload.color.clone(),
                        created_at: car.created_at,
                        updated_at: Some(now),
                        owner: car.owner,
                        is_booked: payload.is_booked,
                    };
                    if !car_record_fits(&candidate) {
                        return None;
                    }
                }
            }
        }
        Some(self.update_car(id, payload, now, caller))
    }

    /// The customer stored under `id`, if there is one.
    pub fn _get_customer(&self, id: &u64) -> (customer: Option<Customer>)
        requires
            self.wf(),
        ensures
            match customer {
                Some(c) => self@.customers.contains_key(*id) && self@.customers[*id] == c@,
                None => !self@.customers.contains_key(*id),
            },
    {
        match map_get(&self.customers, *id) {
            Some(bytes) => {
                assert(customer_sound(
                    map_records(self.customers),
                    counter_value(self.customer_ids),
                    *id,
                ));
                decode_customer(bytes.as_slice())
            },
            None => None,
        }
    }

    /// Stores the customer under its identifier, in place of what was
    /// there.
    pub fn do_insert_customer(&mut self, customer: &Customer)
        requires
            old(self).wf(),
            customer_fits(customer@),
            customer@.id < old(self)@.next_customer_id,
        ensures
            final(self).wf(),
            final(self)@ == (State {
                customers: old(self)@.customers.insert(customer@.id, customer@),
                ..old(self)@
            }),
    {
        let bytes = encode_customer(customer);
        let _ = map_insert(&mut self.customers, customer.id, &bytes);
        proof {
            let limit = counter_value(self.customer_ids);
            assert forall|id: u64|
                map_records(self.customers).contains_key(id) implies #[trigger] customer_sound(
                map_records(self.customers),
                limit,
                id,
            ) by {
                if id != customer.id {
                    assert(customer_sound(map_records(old(self).customers), limit, id));
                }
            }
            assert(self@.customers =~= old(self)@.customers.insert(customer@.id, customer@));
        }
    }

    /// Adds a customer under the next identifier. A payload that is not
    /// acceptable is refused and uses up no identifier.
    pub fn add_customer(&mut self, payload: CustomerPayload) -> (result: Result<Customer, Error>)
        requires
            old(self).wf(),
            model::can_add_customer(old(self)@, payload@),
        ensures
            final(self).wf(),
            final(self)@ == model::add_customer(old(self)@, payload@).0,
            outcome(result) == model::add_customer(old(self)@, payload@).1,
    {
        if let Err(errors) = check_customer_payload(&payload) {
            return Err(Error::ValidationErrors { errors });
        }
        let id = self.customer_ids.next();
        let customer = Customer { id, name: payload.name, contact: payload.contact };
        proof {
            assert forall|key: u64|
                map_records(self.customers).contains_key(key) implies #[trigger] customer_sound(
                map_records(self.customers),
                counter_value(self.customer_ids),
                key,
            ) by {
                assert(customer_sound(map_records(self.customers), id, key));
            }
        }
        self.do_insert_customer(&customer);
        Ok(customer)
    }

    /// Adds a customer like `add_customer`, after testing that it can be
    /// carried out: `None`, with the store as it was, where the counter is
    /// used up or the record would be too long to store.
    pub fn checked_add_customer(&mut self, payload: CustomerPayload) -> (result: Option<
        Result<Customer, Error>,
    >)
        requires
            old(self).wf(),
        ensures
            final(self).wf(),
            match result {
                Some(added) => model::can_add_customer(old(self)@, payload@) && final(self)@
                    == model::add_customer(old(self)@, payload@).0 && outcome(added)
                    == model::add_customer(old(self)@, payload@).1,
                None => !model::can_add_customer(old(self)@, payload@) && final(self)@ == old(self)@,
            },
    {
        if check_customer_payload(&payload).is_ok() {
            let id = self.customer_ids.current();
            if id == u64::MAX {
                return None;
            }
            let candidate = Customer {
                id,
                name: payload.name.clone(),
                contact: payload.contact.clone(),
            };
            if !customer_record_fits(&candidate) {
                return None;
            }
        }
        Some(self.add_customer(payload))
    }

    /// The customer with the given identifier.
    pub fn get_customer(&self, id: u64) -> (result: Result<Customer, Error>)
        requires
            self.wf(),
        ensures
            outcome(result) == model::get_customer(self@, id),
    {
        match self._get_customer(&id) {
            Some(customer) => Ok(customer),
            None => Err(
                Error::NotFound { msg: message_naming("a customer with id=", id, " not found") },
            ),
        }
    }

    /// Removes the customer and hands it back. Any caller may do so.
    pub fn delete_customer(&mut self, id: u64) -> (result: Result<Customer, Error>)
        requires
            old(self).wf(),
        ensures
            final(self).wf(),
            final(self)@ == model::delete_customer(old(self)@, id).0,
            outcome(result) == model::delete_customer(old(self)@, id).1,
    {
        match self._get_customer(&id) {
            Some(customer) => {
                let _ = map_remove(&mut self.customers, id);
                proof {
                    let limit = counter_value(self.customer_ids);
                    assert forall|key: u64|
                        map_records(self.customers).contains_key(
                            key,
                        ) implies #[trigger] customer_sound(
                        map_records(self.customers),
                        limit,
                        key,
                    ) by {
                        assert(customer_sound(map_records(old(self).customers), limit, key));
                    }
                    assert(self@.customers =~= old(self)@.customers.remove(id));
                }
                Ok(customer)
            },
            None => Err(
                Error::NotFound { msg: message_naming("a customer with id=", id, " not found") },
            ),
        }
    }

    /// The reservation stored for the car, if there is one.
    pub fn _get_reservation(&self, car_id: &u64) -> (reservation: Option<Reservation>)
        requires
            self.wf(),
        ensures
            match reservation {
                Some(r) => self@.reservations.contains_key(*car_id) && self@.reservations[*car_id]
                    == r,
                None => !self@.reservations.contains_key(*car_id),
            },
    {
        match map_get(&self.reservations, *car_id) {
            Some(bytes) => {
                assert(reservation_sound(map_records(self.reservations), *car_id));
                decode_reservation(bytes.as_slice())
            },
            None => None,
        }
    }

    /// Stores the reservation under its car, in place of what was there.
    pub fn do_insert_reservation(&mut self, reservation: &Reservation)
        requires
            old(self).wf(),
        ensures
            final(self).wf(),
            final(self)@ == (State {
                reservations: old(self)@.reservations.insert(reservation.car_id, *reservation),
                ..old(self)@
            }),
    {
        let bytes = encode_reservation(reservation);
        let _ = map_insert(&mut self.reservations, reservation.car_id, &bytes);
        proof {
            assert forall|id: u64|
                map_records(self.reservations).contains_key(
                    id,
                ) implies #[trigger] reservation_sound(map_records(self.reservations), id) by {
                if id != reservation.car_id {
                    assert(reservation_sound(map_records(old(self).reservations), id));
                }
            }
            assert(self@.reservations =~= old(self)@.reservations.insert(
                reservation.car_id,
                *reservation,
            ));
        }
    }

    /// Reserves the car for the customer at time `now`. Both must exist and
    /// the car must not be marked as booked. A reservation already stored
    /// for the car is replaced.
    pub fn make_reservation(&mut self, car_id: u64, customer_id: u64, now: u64) -> (result:
        Result<Reservation, Error>)
        requires
            old(self).wf(),
        ensures
            final(self).wf(),
            final(self)@ == model::make_reservation(old(self)@, car_id, customer_id, now).0,
            outcome(result) == model::make_reservation(old(self)@, car_id, customer_id, now).1,
    {
        match (self._get_car(&car_id), self._get_customer(&customer_id)) {
            (Some(car), Some(_)) => {
                if car.is_booked {
                    return Err(
                        Error::AlreadyBooked {
                            msg: message_naming("Car with id=", car_id, " is already booked."),
                        },
                    );
                }
                let reservation = Reservation { car_id, customer_id, reservation_time: now };
                self.do_insert_reservation(&reservation);
                Ok(reservation)
            },
            _ => Err(
                Error::NotFound {
                    msg: String::from_str("Car or customer not found for reservation"),
                },
            ),
        }
    }

    /// The reservation stored for the car.
    pub fn get_reservation(&self, car_id: u64) -> (result: Result<Reservation, Error>)
        requires
            self.wf(),
        ensures
            outcome(result) == model::get_reservation(self@, car_id),
    {
        match self._get_reservation(&car_id) {
            Some(reservation) => Ok(reservation),
            None => Err(
                Error::NotFound {
                    msg: message_naming("a reservation for car_id=", car_id, " not found"),
                },
            ),
        }
    }

    /// Removes the reservation stored for the car. The car's booking flag
    /// stays as it is.
    pub fn cancel_reservation(&mut self, car_id: u64) -> (result: Result<(), Error>)
        requires
            old(self).wf(),
        ensures
            final(self).wf(),
            final(self)@ == model::cancel_reservation(old(self)@, car_id).0,
            outcome(result) == model::cancel_reservation(old(self)@, car_id).1,
    {
        match self._get_reservation(&car_id) {
            Some(_) => {
                let _ = map_remove(&mut self.reservations, car_id);
                proof {
                    assert forall|id: u64|
                        map_records(self.reservations).contains_key(
                            id,
                        ) implies #[trigger] reservation_sound(
                        map_records(self.reservations),
                        id,
                    ) by {
                        assert(reservation_sound(map_records(old(self).reservations), id));
                    }
                    assert(self@.reservations =~= old(self)@.reservations.remove(car_id));
                }
                Ok(())
            },
            None => Err(
                Error::NotFound {
                    msg: message_naming("a reservation for car_id=", car_id, " not found"),
                },
            ),
        }
    }
}

/// Whether `caller` owns the car.
pub fn _check_if_owner(car: &Car, caller: &String) -> (owns: bool)
    ensures
        owns == (car@.owner == caller@),
{
    car.owner == *caller
}

} // verus!
