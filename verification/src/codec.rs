//! The binary form of the records: little-endian integers, one byte for a
//! flag or for the presence of a time stamp, and length-prefixed UTF-8 text.
//! Decoding accepts the bytes that encoding produces and no others.

use crate::durable::MAX_RECORD_SIZE;
use crate::records::{Car, CarView, Customer, CustomerView, Reservation};
use vstd::bytes::*;
use vstd::prelude::*;
use vstd::slice::*;
use vstd::string::*;
use vstd::utf8::*;

verus! {

/// The bytes of a flag.
pub open spec fn flag_bytes(flag: bool) -> Seq<u8> {
    seq![if flag { 1u8 } else { 0u8 }]
}

/// The bytes of an optional time stamp.
pub open spec fn stamp_bytes(stamp: Option<u64>) -> Seq<u8> {
    match stamp {
        None => seq![0u8],
        Some(at) => seq![1u8] + spec_u64_to_le_bytes(at),
    }
}

/// The bytes of a text: the length of its UTF-8 form, then that form.
pub open spec fn text_bytes(text: Seq<char>) -> Seq<u8> {
    spec_u64_to_le_bytes(encode_utf8(text).len() as u64) + encode_utf8(text)
}

/// The length of a text's UTF-8 form fits the length prefix. This holds of
/// every `String`.
pub open spec fn text_ok(text: Seq<char>) -> bool {
    encode_utf8(text).len() <= u64::MAX
}

/// Reads a `u64` off the front of `bytes`; gives it with what follows.
pub open spec fn take_u64(bytes: Seq<u8>) -> Option<(u64, Seq<u8>)> {
    if bytes.len() >= 8 {
        Some((spec_u64_from_le_bytes(bytes.subrange(0, 8)), bytes.skip(8)))
    } else {
        None
    }
}

/// Reads a `u32` off the front of `bytes`.
pub open spec fn take_u32(bytes: Seq<u8>) -> Option<(u32, Seq<u8>)> {
    if bytes.len() >= 4 {
        Some((spec_u32_from_le_bytes(bytes.subrange(0, 4)), bytes.skip(4)))
    } else {
        None
    }
}

/// Reads a flag off the front of `bytes`.
pub open spec fn take_flag(bytes: Seq<u8>) -> Option<(bool, Seq<u8>)> {
    if bytes.len() >= 1 && bytes[0] <= 1 {
        Some((bytes[0] == 1, bytes.skip(1)))
    } else {
        None
    }
}

/// Reads an optional time stamp off the front of `bytes`.
pub open spec fn take_stamp(bytes: Seq<u8>) -> Option<(Option<u64>, Seq<u8>)> {
    if bytes.len() >= 1 && bytes[0] == 0 {
        Some((None, bytes.skip(1)))
    } else if bytes.len() >= 1 && bytes[0] == 1 {
        match take_u64(bytes.skip(1)) {
            Some((at, rest)) => Some((Some(at), rest)),
            None => None,
        }
    } else {
        None
    }
}

/// Reads a text off the front of `bytes`.
pub open spec fn take_text(bytes: Seq<u8>) -> Option<(Seq<char>, Seq<u8>)> {
    match take_u64(bytes) {
        Some((len, rest)) => if len <= rest.len() && valid_utf8(rest.take(len as int)) {
            Some((decode_utf8(rest.take(len as int)), rest.skip(len as int)))
        } else {
            None
        },
        None => None,
    }
}

/// The bytes of a car.
#[verifier::opaque]
pub open spec fn car_bytes(car: CarView) -> Seq<u8> {
    spec_u64_to_le_bytes(car.id) + (text_bytes(car.make) + (text_bytes(car.model) + (
    spec_u32_to_le_bytes(car.year) + (text_bytes(car.color) + (spec_u64_to_le_bytes(
        car.created_at,
    ) + (stamp_bytes(car.updated_at) + (text_bytes(car.owner) + flag_bytes(car.is_booked))))))))
}

/// The car that `bytes` encode, if they encode one.
#[verifier::opaque]
pub open spec fn parse_car(bytes: Seq<u8>) -> Option<CarView> {
    let id = take_u64(bytes);
    let make = take_text(id.unwrap().1);
    let model = take_text(make.unwrap().1);
    let year = take_u32(model.unwrap().1);
    let color = take_text(year.unwrap().1);
    let created_at = take_u64(color.unwrap().1);
    let updated_at = take_stamp(created_at.unwrap().1);
    let owner = take_text(updated_at.unwrap().1);
    let is_booked = take_flag(owner.unwrap().1);
    if id is Some && make is Some && model is Some && year is Some && color is Some
        && created_at is Some && updated_at is Some && owner is Some && is_booked is Some
        && is_booked.unwrap().1.len() == 0 {
        Some(
            CarView {
                id: id.unwrap().0,
                make: make.unwrap().0,
                model: model.unwrap().0,
                year: year.unwrap().0,
                color: color.unwrap().0,
                created_at: created_at.unwrap().0,
                updated_at: updated_at.unwrap().0,
                owner: owner.unwrap().0,
                is_booked: is_booked.unwrap().0,
            },
        )
    } else {
        None
    }
}

/// The bytes of a customer.
#[verifier::opaque]
pub open spec fn customer_bytes(customer: CustomerView) -> Seq<u8> {
    spec_u64_to_le_bytes(customer.id) + (text_bytes(customer.name) + text_bytes(customer.contact))
}

/// The customer that `bytes` encode, if they encode one.
#[verifier::opaque]
pub open spec fn parse_customer(bytes: Seq<u8>) -> Option<CustomerView> {
    let id = take_u64(bytes);
    let name = take_text(id.unwrap().1);
    let contact = take_text(name.unwrap().1);
    if id is Some && name is Some && contact is Some && contact.unwrap().1.len() == 0 {
        Some(
            CustomerView { id: id.unwrap().0, name: name.unwrap().0, contact: contact.unwrap().0 },
        )
    } else {
        None
    }
}

/// The bytes of a reservation.
#[verifier::opaque]
pub open spec fn reservation_bytes(reservation: Reservation) -> Seq<u8> {
    spec_u64_to_le_bytes(reservation.car_id) + (spec_u64_to_le_bytes(reservation.customer_id)
        + spec_u64_to_le_bytes(reservation.reservation_time))
}

/// The reservation that `bytes` encode, if they encode one.
#[verifier::opaque]
pub open spec fn parse_reservation(bytes: Seq<u8>) -> Option<Reservation> {
    let car_id = take_u64(bytes);
    let customer_id = take_u64(car_id.unwrap().1);
    let reservation_time = take_u64(customer_id.unwrap().1);
    if car_id is Some && customer_id is Some && reservation_time is Some
        && reservation_time.unwrap().1.len() == 0 {
        Some(
            Reservation {
                car_id: car_id.unwrap().0,
                customer_id: customer_id.unwrap().0,
                reservation_time: reservation_time.unwrap().0,
            },
        )
    } else {
        None
    }
}

/// Every text of the car has a UTF-8 form whose length fits the prefix.
pub open spec fn car_texts_ok(car: CarView) -> bool {
    text_ok(car.make) && text_ok(car.model) && text_ok(car.color) && text_ok(car.owner)
}

/// Every text of the customer has a UTF-8 form whose length fits the prefix.
pub open spec fn customer_texts_ok(customer: CustomerView) -> bool {
    text_ok(customer.name) && text_ok(customer.contact)
}

/// The car's encoding is no longer than a stored record may be.
pub open spec fn car_fits(car: CarView) -> bool {
    car_texts_ok(car) && car_bytes(car).len() <= MAX_RECORD_SIZE
}

/// The customer's encoding is no longer than a stored record may be.
pub open spec fn customer_fits(customer: CustomerView) -> bool {
    customer_texts_ok(customer) && customer_bytes(customer).len() <= MAX_RECORD_SIZE
}

proof fn lemma_take_u64(value: u64, rest: Seq<u8>)
    ensures
        take_u64(spec_u64_to_le_bytes(value) + rest) == Some((value, rest)),
        spec_u64_to_le_bytes(value).len() == 8,
{
    lemma_auto_spec_u64_to_from_le_bytes();
    let all = spec_u64_to_le_bytes(value) + rest;
    assert(all.subrange(0, 8) =~= spec_u64_to_le_bytes(value));
    assert(all.skip(8) =~= rest);
}

proof fn lemma_take_u32(value: u32, rest: Seq<u8>)
    ensures
        take_u32(spec_u32_to_le_bytes(value) + rest) == Some((value, rest)),
        spec_u32_to_le_bytes(value).len() == 4,
{
    lemma_auto_spec_u32_to_from_le_bytes();
    let all = spec_u32_to_le_bytes(value) + rest;
    assert(all.subrange(0, 4) =~= spec_u32_to_le_bytes(value));
    assert(all.skip(4) =~= rest);
}

proof fn lemma_take_flag(flag: bool, rest: Seq<u8>)
    ensures
        take_flag(flag_bytes(flag) + rest) == Some((flag, rest)),
{
    let all = flag_bytes(flag) + rest;
    assert(all.skip(1) =~= rest);
}

proof fn lemma_take_stamp(stamp: Option<u64>, rest: Seq<u8>)
    ensures
        take_stamp(stamp_bytes(stamp) + rest) == Some((stamp, rest)),
{
    let all = stamp_bytes(stamp) + rest;
    match stamp {
        None => {
            assert(all.skip(1) =~= rest);
        },
        Some(at) => {
            assert(all.skip(1) =~= spec_u64_to_le_bytes(at) + rest);
            lemma_take_u64(at, rest);
        },
    }
}

proof fn lemma_take_text(text: Seq<char>, rest: Seq<u8>)
    requires
        text_ok(text),
    ensures
        take_text(text_bytes(text) + rest) == Some((text, rest)),
{
    let form = encode_utf8(text);
    let all = text_bytes(text) + rest;
    assert(all =~= spec_u64_to_le_bytes(form.len() as u64) + (form + rest));
    lemma_take_u64(form.len() as u64, form + rest);
    assert((form + rest).take(form.len() as int) =~= form);
    assert((form + rest).skip(form.len() as int) =~= rest);
    encode_utf8_valid_utf8(text);
    encode_utf8_decode_utf8(text);
}

/// Decoding undoes encoding: a car's bytes decode to that car.
pub proof fn lemma_car_round_trip(car: CarView)
    requires
        car_texts_ok(car),
    ensures
        parse_car(car_bytes(car)) == Some(car),
{
    reveal(car_bytes);
    reveal(parse_car);
    let r8 = flag_bytes(car.is_booked);
    let r7 = text_bytes(car.owner) + r8;
    let r6 = stamp_bytes(car.updated_at) + r7;
    let r5 = spec_u64_to_le_bytes(car.created_at) + r6;
    let r4 = text_bytes(car.color) + r5;
    let r3 = spec_u32_to_le_bytes(car.year) + r4;
    let r2 = text_bytes(car.model) + r3;
    let r1 = text_bytes(car.make) + r2;
    lemma_take_u64(car.id, r1);
    lemma_take_text(car.make, r2);
    lemma_take_text(car.model, r3);
    lemma_take_u32(car.year, r4);
    lemma_take_text(car.color, r5);
    lemma_take_u64(car.created_at, r6);
    lemma_take_stamp(car.updated_at, r7);
    lemma_take_text(car.owner, r8);
    assert(r8 =~= flag_bytes(car.is_booked) + Seq::<u8>::empty());
    lemma_take_flag(car.is_booked, Seq::<u8>::empty());
}

/// Decoding undoes encoding: a customer's bytes decode to that customer.
pub proof fn lemma_customer_round_trip(customer: CustomerView)
    requires
        customer_texts_ok(customer),
    ensures
        parse_customer(customer_bytes(customer)) == Some(customer),
{
    reveal(customer_bytes);
    reveal(parse_customer);
    let r2 = text_bytes(customer.contact);
    let r1 = text_bytes(customer.name) + r2;
    lemma_take_u64(customer.id, r1);
    lemma_take_text(customer.name, r2);
    assert(r2 =~= text_bytes(customer.contact) + Seq::<u8>::empty());
    lemma_take_text(customer.contact, Seq::<u8>::empty());
}

/// Decoding undoes encoding: a reservation's bytes decode to that
/// reservation, and there are twenty-four of them.
pub proof fn lemma_reservation_round_trip(reservation: Reservation)
    ensures
        parse_reservation(reservation_bytes(reservation)) == Some(reservation),
        reservation_bytes(reservation).len() == 24,
{
    reveal(reservation_bytes);
    reveal(parse_reservation);
    let r2 = spec_u64_to_le_bytes(reservation.reservation_time);
    let r1 = spec_u64_to_le_bytes(reservation.customer_id) + r2;
    lemma_take_u64(reservation.car_id, r1);
    lemma_take_u64(reservation.customer_id, r2);
    assert(r2 =~= spec_u64_to_le_bytes(reservation.reservation_time) + Seq::<u8>::empty());
    lemma_take_u64(reservation.reservation_time, Seq::<u8>::empty());
}

proof fn lemma_u64_taken(bytes: Seq<u8>)
    requires
        take_u64(bytes) is Some,
    ensures
        bytes == spec_u64_to_le_bytes(take_u64(bytes).unwrap().0) + take_u64(bytes).unwrap().1,
{
    lemma_auto_spec_u64_to_from_le_bytes();
    assert(bytes =~= bytes.subrange(0, 8) + bytes.skip(8));
}

proof fn lemma_u32_taken(bytes: Seq<u8>)
    requires
        take_u32(bytes) is Some,
    ensures
        bytes == spec_u32_to_le_bytes(take_u32(bytes).unwrap().0) + take_u32(bytes).unwrap().1,
{
    lemma_auto_spec_u32_to_from_le_bytes();
    assert(bytes =~= bytes.subrange(0, 4) + bytes.skip(4));
}

proof fn lemma_flag_taken(bytes: Seq<u8>)
    requires
        take_flag(bytes) is Some,
    ensures
        bytes == flag_bytes(take_flag(bytes).unwrap().0) + take_flag(bytes).unwrap().1,
{
    assert(bytes =~= flag_bytes(bytes[0] == 1) + bytes.skip(1));
}

proof fn lemma_stamp_taken(bytes: Seq<u8>)
    requires
        take_stamp(bytes) is Some,
    ensures
        bytes == stamp_bytes(take_stamp(bytes).unwrap().0) + take_stamp(bytes).unwrap().1,
{
    if bytes[0] == 0 {
        assert(bytes =~= seq![0u8] + bytes.skip(1));
    } else {
        lemma_u64_taken(bytes.skip(1));
        let (at, rest) = take_u64(bytes.skip(1)).unwrap();
        assert(bytes =~= seq![1u8] + bytes.skip(1));
        assert(seq![1u8] + (spec_u64_to_le_bytes(at) + rest) =~= (seq![1u8]
            + spec_u64_to_le_bytes(at)) + rest);
    }
}

proof fn lemma_text_taken(bytes: Seq<u8>)
    requires
        take_text(bytes) is Some,
    ensures
        bytes == text_bytes(take_text(bytes).unwrap().0) + take_text(bytes).unwrap().1,
        text_ok(take_text(bytes).unwrap().0),
{
    lemma_u64_taken(bytes);
    let (len, after) = take_u64(bytes).unwrap();
    let form = after.take(len as int);
    let (text, rest) = take_text(bytes).unwrap();
    decode_utf8_encode_utf8(form);
    assert(after =~= form + rest);
    assert(bytes =~= (spec_u64_to_le_bytes(len) + form) + rest);
}

/// Only a car's own encoding decodes to it: bytes that decode to a car are
/// the bytes of that car.
pub proof fn lemma_car_bytes_unique(bytes: Seq<u8>)
    requires
        parse_car(bytes) is Some,
    ensures
        car_bytes(parse_car(bytes).unwrap()) == bytes,
        car_texts_ok(parse_car(bytes).unwrap()),
{
    reveal(car_bytes);
    reveal(parse_car);
    let id = take_u64(bytes).unwrap();
    let make = take_text(id.1).unwrap();
    let model = take_text(make.1).unwrap();
    let year = take_u32(model.1).unwrap();
    let color = take_text(year.1).unwrap();
    let created_at = take_u64(color.1).unwrap();
    let updated_at = take_stamp(created_at.1).unwrap();
    let owner = take_text(updated_at.1).unwrap();
    let is_booked = take_flag(owner.1).unwrap();
    lemma_u64_taken(bytes);
    lemma_text_taken(id.1);
    lemma_text_taken(make.1);
    lemma_u32_taken(model.1);
    lemma_text_taken(year.1);
    lemma_u64_taken(color.1);
    lemma_stamp_taken(created_at.1);
    lemma_text_taken(updated_at.1);
    lemma_flag_taken(owner.1);
    assert(owner.1 =~= flag_bytes(is_booked.0));
}

/// Only a customer's own encoding decodes to it.
pub proof fn lemma_customer_bytes_unique(bytes: Seq<u8>)
    requires
        parse_customer(bytes) is Some,
    ensures
        customer_bytes(parse_customer(bytes).unwrap()) == bytes,
        customer_texts_ok(parse_customer(bytes).unwrap()),
{
    reveal(customer_bytes);
    reveal(parse_customer);
    let id = take_u64(bytes).unwrap();
    let name = take_text(id.1).unwrap();
    let contact = take_text(name.1).unwrap();
    lemma_u64_taken(bytes);
    lemma_text_taken(id.1);
    lemma_text_taken(name.1);
    assert(name.1 =~= text_bytes(contact.0));
}

/// Only a reservation's own encoding decodes to it.
pub proof fn lemma_reservation_bytes_unique(bytes: Seq<u8>)
    requires
        parse_reservation(bytes) is Some,
    ensures
        reservation_bytes(parse_reservation(bytes).unwrap()) == bytes,
{
    reveal(reservation_bytes);
    reveal(parse_reservation);
    let car_id = take_u64(bytes).unwrap();
    let customer_id = take_u64(car_id.1).unwrap();
    let reservation_time = take_u64(customer_id.1).unwrap();
    lemma_u64_taken(bytes);
    lemma_u64_taken(car_id.1);
    lemma_u64_taken(customer_id.1);
    assert(customer_id.1 =~= spec_u64_to_le_bytes(reservation_time.0));
}

fn put_bytes(out: &mut Vec<u8>, bytes: &[u8])
    ensures
        final(out)@ == old(out)@ + bytes@,
{
    out.extend_from_slice(bytes);
    assert(out@ =~= old(out)@ + bytes@);
}

fn put_u64(out: &mut Vec<u8>, value: u64)
    ensures
        final(out)@ == old(out)@ + spec_u64_to_le_bytes(value),
{
    let bytes = u64_to_le_bytes(value);
    put_bytes(out, bytes.as_slice());
}

fn put_u32(out: &mut Vec<u8>, value: u32)
    ensures
        final(out)@ == old(out)@ + spec_u32_to_le_bytes(value),
{
    let bytes = u32_to_le_bytes(value);
    put_bytes(out, bytes.as_slice());
}

fn put_flag(out: &mut Vec<u8>, flag: bool)
    ensures
        final(out)@ == old(out)@ + flag_bytes(flag),
{
    out.push(if flag { 1u8 } else { 0u8 });
    assert(out@ =~= old(out)@ + flag_bytes(flag));
}

fn put_stamp(out: &mut Vec<u8>, stamp: Option<u64>)
    ensures
        final(out)@ == old(out)@ + stamp_bytes(stamp),
{
    match stamp {
        None => {
            out.push(0u8);
        },
        Some(at) => {
            out.push(1u8);
            put_u64(out, at);
        },
    }
    assert(out@ =~= old(out)@ + stamp_bytes(stamp));
}

fn put_text(out: &mut Vec<u8>, text: &String)
    ensures
        final(out)@ == old(out)@ + text_bytes(text@),
        text_ok(text@),
{
    let form = text.as_str().as_bytes();
    put_u64(out, form.len() as u64);
    put_bytes(out, form);
    assert(out@ =~= old(out)@ + text_bytes(text@));
}

/// Encodes a car. The bytes decode to the same car.
pub fn encode_car(car: &Car) -> (bytes: Vec<u8>)
    ensures
        bytes@ == car_bytes(car@),
        car_texts_ok(car@),
        parse_car(bytes@) == Some(car@),
{
    let mut bytes: Vec<u8> = Vec::new();
    put_u64(&mut bytes, car.id);
    put_text(&mut bytes, &car.make);
    put_text(&mut bytes, &car.model);
    put_u32(&mut bytes, car.year);
    put_text(&mut bytes, &car.color);
    put_u64(&mut bytes, car.created_at);
    put_stamp(&mut bytes, car.updated_at);
    put_text(&mut bytes, &car.owner);
    put_flag(&mut bytes, car.is_booked);
    proof {
        reveal(car_bytes);
        assert(bytes@ =~= car_bytes(car@));
        lemma_car_round_trip(car@);
    }
    bytes
}

/// Whether the car's encoding is short enough to store.
pub fn car_record_fits(car: &Car) -> (fits: bool)
    ensures
        fits == car_fits(car@),
{
    encode_car(car).len() <= MAX_RECORD_SIZE
}

/// Whether the customer's encoding is short enough to store.
pub fn customer_record_fits(customer: &Customer) -> (fits: bool)
    ensures
        fits == customer_fits(customer@),
{
    encode_customer(customer).len() <= MAX_RECORD_SIZE
}

/// Encodes a customer. The bytes decode to the same customer.
pub fn encode_customer(customer: &Customer) -> (bytes: Vec<u8>)
    ensures
        bytes@ == customer_bytes(customer@),
        customer_texts_ok(customer@),
        parse_customer(bytes@) == Some(customer@),
{
    let mut bytes: Vec<u8> = Vec::new();
    put_u64(&mut bytes, customer.id);
    put_text(&mut bytes, &customer.name);
    put_text(&mut bytes, &customer.contact);
    proof {
        reveal(customer_bytes);
        assert(bytes@ =~= customer_bytes(customer@));
        lemma_customer_round_trip(customer@);
    }
    bytes
}

/// Encodes a reservation. The bytes decode to the same reservation.
pub fn encode_reservation(reservation: &Reservation) -> (bytes: Vec<u8>)
    ensures
        bytes@ == reservation_bytes(*reservation),
        bytes@.len() == 24,
        parse_reservation(bytes@) == Some(*reservation),
{
    let mut bytes: Vec<u8> = Vec::new();
    put_u64(&mut bytes, reservation.car_id);
    put_u64(&mut bytes, reservation.customer_id);
    put_u64(&mut bytes, reservation.reservation_time);
    proof {
        reveal(reservation_bytes);
        assert(bytes@ =~= reservation_bytes(*reservation));
        lemma_reservation_round_trip(*reservation);
    }
    bytes
}

/// `String::from_utf8` of std: the text that the bytes are the UTF-8 form
/// of, and `None` exactly when they are not valid UTF-8.
#[verifier::external_body]
fn text_from_utf8(bytes: Vec<u8>) -> (text: Option<String>)
    ensures
        text is Some == valid_utf8(bytes@),
        text matches Some(t) ==> t@ == decode_utf8(bytes@),
{
    String::from_utf8(bytes).ok()
}

fn get_u64(bytes: &[u8], at: usize) -> (read: Option<(u64, usize)>)
    requires
        at <= bytes@.len(),
    ensures
        match read {
            Some((value, next)) => at <= next <= bytes@.len() && take_u64(bytes@.skip(at as int))
                == Some((value, bytes@.skip(next as int))),
            None => take_u64(bytes@.skip(at as int)) is None,
        },
{
    if bytes.len() - at < 8 {
        return None;
    }
    let value = u64_from_le_bytes(slice_subrange(bytes, at, at + 8));
    proof {
        assert(bytes@.skip(at as int).subrange(0, 8) =~= bytes@.subrange(at as int, at + 8));
        assert(bytes@.skip(at as int).skip(8) =~= bytes@.skip(at + 8));
    }
    Some((value, at + 8))
}

fn get_u32(bytes: &[u8], at: usize) -> (read: Option<(u32, usize)>)
    requires
        at <= bytes@.len(),
    ensures
        match read {
            Some((value, next)) => at <= next <= bytes@.len() && take_u32(bytes@.skip(at as int))
                == Some((value, bytes@.skip(next as int))),
            None => take_u32(bytes@.skip(at as int)) is None,
        },
{
    if bytes.len() - at < 4 {
        return None;
    }
    let value = u32_from_le_bytes(slice_subrange(bytes, at, at + 4));
    proof {
        assert(bytes@.skip(at as int).subrange(0, 4) =~= bytes@.subrange(at as int, at + 4));
        assert(bytes@.skip(at as int).skip(4) =~= bytes@.skip(at + 4));
    }
    Some((value, at + 4))
}

fn get_flag(bytes: &[u8], at: usize) -> (read: Option<(bool, usize)>)
    requires
        at <= bytes@.len(),
    ensures
        match read {
            Some((value, next)) => at <= next <= bytes@.len() && take_flag(
                bytes@.skip(at as int),
            ) == Some((value, bytes@.skip(next as int))),
            None => take_flag(bytes@.skip(at as int)) is None,
        },
{
    if bytes.len() - at < 1 {
        return None;
    }
    let byte = bytes[at];
    proof {
        assert(bytes@.skip(at as int)[0] == byte);
        assert(bytes@.skip(at as int).skip(1) =~= bytes@.skip(at + 1));
    }
    if byte > 1 {
        return None;
    }
    Some((byte == 1, at + 1))
}

fn get_stamp(bytes: &[u8], at: usize) -> (read: Option<(Option<u64>, usize)>)
    requires
        at <= bytes@.len(),
    ensures
        match read {
            Some((value, next)) => at <= next <= bytes@.len() && take_stamp(
                bytes@.skip(at as int),
            ) == Some((value, bytes@.skip(next as int))),
            None => take_stamp(bytes@.skip(at as int)) is None,
        },
{
    if bytes.len() - at < 1 {
        return None;
    }
    let byte = bytes[at];
    proof {
        assert(bytes@.skip(at as int)[0] == byte);
        assert(bytes@.skip(at as int).skip(1) =~= bytes@.skip(at + 1));
    }
    if byte == 0 {
        Some((None, at + 1))
    } else if byte == 1 {
        match get_u64(bytes, at + 1) {
            Some((value, next)) => Some((Some(value), next)),
            None => None,
        }
    } else {
        None
    }
}

fn get_text(bytes: &[u8], at: usize) -> (read: Option<(String, usize)>)
    requires
        at <= bytes@.len(),
    ensures
        match read {
            Some((value, next)) => at <= next <= bytes@.len() && take_text(
                bytes@.skip(at as int),
            ) == Some((value@, bytes@.skip(next as int))),
            None => take_text(bytes@.skip(at as int)) is None,
        },
{
    let (len, start) = match get_u64(bytes, at) {
        Some(read) => read,
        None => { return None; },
    };
    if len > (bytes.len() - start) as u64 {
        return None;
    }
    let end = start + len as usize;
    let form = slice_to_vec(slice_subrange(bytes, start, end));
    proof {
        assert(bytes@.skip(start as int).take(len as int) =~= bytes@.subrange(
            start as int,
            end as int,
        ));
        assert(bytes@.skip(start as int).skip(len as int) =~= bytes@.skip(end as int));
    }
    match text_from_utf8(form) {
        Some(text) => Some((text, end)),
        None => None,
    }
}

/// Decodes a car: `None` where the bytes are not the encoding of one.
pub fn decode_car(bytes: &[u8]) -> (car: Option<Car>)
    ensures
        match car {
            Some(c) => parse_car(bytes@) == Some(c@) && car_bytes(c@) == bytes@,
            None => parse_car(bytes@) is None && forall|any: CarView|
                car_texts_ok(any) ==> #[trigger] car_bytes(any) != bytes@,
        },
{
    proof {
        reveal(parse_car);
    }
    assert(bytes@.skip(0) =~= bytes@);
    proof {
        if parse_car(bytes@) is Some {
            lemma_car_bytes_unique(bytes@);
        } else {
            assert forall|any: CarView| car_texts_ok(any) implies #[trigger] car_bytes(any)
                != bytes@ by {
                lemma_car_round_trip(any);
            }
        }
    }
    let (id, at) = match get_u64(bytes, 0) {
        Some(read) => read,
        None => { return None; },
    };
    let (make, at) = match get_text(bytes, at) {
        Some(read) => read,
        None => { return None; },
    };
    let (model, at) = match get_text(bytes, at) {
        Some(read) => read,
        None => { return None; },
    };
    let (year, at) = match get_u32(bytes, at) {
        Some(read) => read,
        None => { return None; },
    };
    let (color, at) = match get_text(bytes, at) {
        Some(read) => read,
        None => { return None; },
    };
    let (created_at, at) = match get_u64(bytes, at) {
        Some(read) => read,
        None => { return None; },
    };
    let (updated_at, at) = match get_stamp(bytes, at) {
        Some(read) => read,
        None => { return None; },
    };
    let (owner, at) = match get_text(bytes, at) {
        Some(read) => read,
        None => { return None; },
    };
    let (is_booked, at) = match get_flag(bytes, at) {
        Some(read) => read,
        None => { return None; },
    };
    if at != bytes.len() {
        return None;
    }
    Some(Car { id, make, model, year, color, created_at, updated_at, owner, is_booked })
}

/// Decodes a customer: `None` where the bytes are not the encoding of one.
pub fn decode_customer(bytes: &[u8]) -> (customer: Option<Customer>)
    ensures
        match customer {
            Some(c) => parse_customer(bytes@) == Some(c@) && customer_bytes(c@) == bytes@,
            None => parse_customer(bytes@) is None && forall|any: CustomerView|
                customer_texts_ok(any) ==> #[trigger] customer_bytes(any) != bytes@,
        },
{
    proof {
        reveal(parse_customer);
    }
    assert(bytes@.skip(0) =~= bytes@);
    proof {
        if parse_customer(bytes@) is Some {
            lemma_customer_bytes_unique(bytes@);
        } else {
            assert forall|any: CustomerView| customer_texts_ok(any) implies #[trigger] customer_bytes(
                any,
            ) != bytes@ by {
                lemma_customer_round_trip(any);
            }
        }
    }
    let (id, at) = match get_u64(bytes, 0) {
        Some(read) => read,
        None => { return None; },
    };
    let (name, at) = match get_text(bytes, at) {
        Some(read) => read,
        None => { return None; },
    };
    let (contact, at) = match get_text(bytes, at) {
        Some(read) => read,
        None => { return None; },
    };
    if at != bytes.len() {
        return None;
    }
    Some(Customer { id, name, contact })
}

/// Decodes a reservation: `None` where the bytes are not the encoding of
/// one.
pub fn decode_reservation(bytes: &[u8]) -> (reservation: Option<Reservation>)
    ensures
        reservation == parse_reservation(bytes@),
        match reservation {
            Some(r) => reservation_bytes(r) == bytes@,
            None => forall|any: Reservation| #[trigger] reservation_bytes(any) != bytes@,
        },
{
    proof {
        reveal(parse_reservation);
    }
    assert(bytes@.skip(0) =~= bytes@);
    proof {
        if parse_reservation(bytes@) is Some {
            lemma_reservation_bytes_unique(bytes@);
        } else {
            assert forall|any: Reservation| #[trigger] reservation_bytes(any) != bytes@ by {
                lemma_reservation_round_trip(any);
            }
        }
    }
    let (car_id, at) = match get_u64(bytes, 0) {
        Some(read) => read,
        None => { return None; },
    };
    let (customer_id, at) = match get_u64(bytes, at) {
        Some(read) => read,
        None => { return None; },
    };
    let (reservation_time, at) = match get_u64(bytes, at) {
        Some(read) => read,
        None => { return None; },
    };
    if at != bytes.len() {
        return None;
    }
    Some(Reservation { car_id, customer_id, reservation_time })
}

} // verus!
