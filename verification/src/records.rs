//! The records the service keeps, the payloads callers send, and the errors
//! it reports, each with the mathematical value that contracts speak of.

use vstd::prelude::*;

verus! {

/// A car offered for rent.
#[derive(Debug, PartialEq, Eq)]
pub struct Car {
    pub id: u64,
    pub make: String,
    pub model: String,
    pub year: u32,
    pub color: String,
    pub created_at: u64,
    pub updated_at: Option<u64>,
    pub owner: String,
    pub is_booked: bool,
}

/// What a caller supplies to add or update a car.
#[derive(Debug, PartialEq, Eq)]
pub struct CarPayload {
    pub make: String,
    pub model: String,
    pub year: u32,
    pub color: String,
    pub is_booked: bool,
}

/// A customer who may reserve cars.
#[derive(Debug, PartialEq, Eq)]
pub struct Customer {
    pub id: u64,
    pub name: String,
    pub contact: String,
}

/// What a caller supplies to add a customer.
#[derive(Debug, PartialEq, Eq)]
pub struct CustomerPayload {
    pub name: String,
    pub contact: String,
}

/// A reservation of one car by one customer.
#[derive(Debug, PartialEq, Eq, Clone, Copy)]
pub struct Reservation {
    pub car_id: u64,
    pub customer_id: u64,
    pub reservation_time: u64,
}

/// Why an operation was refused.
#[derive(Debug, PartialEq, Eq)]
pub enum Error {
    ValidationErrors { errors: String },
    NotFound { msg: String },
    NotAuthorized { msg: String },
    AlreadyBooked { msg: String },
}

/// The value of a [`Car`].
pub struct CarView {
    pub id: u64,
    pub make: Seq<char>,
    pub model: Seq<char>,
    pub year: u32,
    pub color: Seq<char>,
    pub created_at: u64,
    pub updated_at: Option<u64>,
    pub owner: Seq<char>,
    pub is_booked: bool,
}

/// The value of a [`CarPayload`].
pub struct CarPayloadView {
    pub make: Seq<char>,
    pub model: Seq<char>,
    pub year: u32,
    pub color: Seq<char>,
    pub is_booked: bool,
}

/// The value of a [`Customer`].
pub struct CustomerView {
    pub id: u64,
    pub name: Seq<char>,
    pub contact: Seq<char>,
}

/// The value of a [`CustomerPayload`].
pub struct CustomerPayloadView {
    pub name: Seq<char>,
    pub contact: Seq<char>,
}

/// The value of an [`Error`]. The text of a validation failure is left out:
/// it is written by the validation engine and no contract depends on it.
pub enum ErrorView {
    ValidationErrors,
    NotFound { msg: Seq<char> },
    NotAuthorized { msg: Seq<char> },
    AlreadyBooked { msg: Seq<char> },
}

impl View for Car {
    type V = CarView;

    open spec fn view(&self) -> CarView {
        CarView {
            id: self.id,
            make: self.make@,
            model: self.model@,
            year: self.year,
            color: self.color@,
            created_at: self.created_at,
            updated_at: self.updated_at,
            owner: self.owner@,
            is_booked: self.is_booked,
        }
    }
}

impl View for CarPayload {
    type V = CarPayloadView;

    open spec fn view(&self) -> CarPayloadView {
        CarPayloadView {
            make: self.make@,
            model: self.model@,
            year: self.year,
            color: self.color@,
            is_booked: self.is_booked,
        }
    }
}

impl View for Customer {
    type V = CustomerView;

    open spec fn view(&self) -> CustomerView {
        CustomerView { id: self.id, name: self.name@, contact: self.contact@ }
    }
}

impl View for CustomerPayload {
    type V = CustomerPayloadView;

    open spec fn view(&self) -> CustomerPayloadView {
        CustomerPayloadView { name: self.name@, contact: self.contact@ }
    }
}

impl View for Reservation {
    type V = Reservation;

    open spec fn view(&self) -> Reservation {
        *self
    }
}

impl View for Error {
    type V = ErrorView;

    open spec fn view(&self) -> ErrorView {
        match self {
            Error::ValidationErrors { .. } => ErrorView::ValidationErrors,
            Error::NotFound { msg } => ErrorView::NotFound { msg: msg@ },
            Error::NotAuthorized { msg } => ErrorView::NotAuthorized { msg: msg@ },
            Error::AlreadyBooked { msg } => ErrorView::AlreadyBooked { msg: msg@ },
        }
    }
}

impl Clone for Car {
    fn clone(&self) -> (copy: Car)
        ensures
            copy@ == self@,
    {
        Car {
            id: self.id,
            make: self.make.clone(),
            model: self.model.clone(),
            year: self.year,
            color: self.color.clone(),
            created_at: self.created_at,
            updated_at: self.updated_at,
            owner: self.owner.clone(),
            is_booked: self.is_booked,
        }
    }
}

impl Clone for Customer {
    fn clone(&self) -> (copy: Customer)
        ensures
            copy@ == self@,
    {
        Customer { id: self.id, name: self.name.clone(), contact: self.contact.clone() }
    }
}

impl Default for Car {
    fn default() -> (car: Car)
        ensures
            car@ == (CarView {
                id: 0,
                make: Seq::empty(),
                model: Seq::empty(),
                year: 0,
                color: Seq::empty(),
                created_at: 0,
                updated_at: None,
                owner: Seq::empty(),
                is_booked: false,
            }),
    {
        Car {
            id: 0,
            make: String::new(),
            model: String::new(),
            year: 0,
            color: String::new(),
            created_at: 0,
            updated_at: None,
            owner: String::new(),
            is_booked: false,
        }
    }
}

impl Default for CarPayload {
    fn default() -> (payload: CarPayload)
        ensures
            payload@ == (CarPayloadView {
                make: Seq::empty(),
                model: Seq::empty(),
                year: 0,
                color: Seq::empty(),
                is_booked: false,
            }),
    {
        CarPayload {
            make: String::new(),
            model: String::new(),
            year: 0,
            color: String::new(),
            is_booked: false,
        }
    }
}

impl Default for Customer {
    fn default() -> (customer: Customer)
        ensures
            customer@ == (CustomerView { id: 0, name: Seq::empty(), contact: Seq::empty() }),
    {
        Customer { id: 0, name: String::new(), contact: String::new() }
    }
}

impl Default for CustomerPayload {
    fn default() -> (payload: CustomerPayload)
        ensures
            payload@ == (CustomerPayloadView { name: Seq::empty(), contact: Seq::empty() }),
    {
        CustomerPayload { name: String::new(), contact: String::new() }
    }
}

impl Default for Reservation {
    fn default() -> (reservation: Reservation)
        ensures
            reservation == (Reservation { car_id: 0, customer_id: 0, reservation_time: 0 }),
    {
        Reservation { car_id: 0, customer_id: 0, reservation_time: 0 }
    }
}

/// The value of an outcome: of the record on success, of the error otherwise.
pub open spec fn outcome<T: View>(result: Result<T, Error>) -> Result<T::V, ErrorView> {
    match result {
        Ok(value) => Ok(value@),
        Err(error) => Err(error@),
    }
}

} // verus!
