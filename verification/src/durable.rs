//! Regions of one memory, and the two durable structures kept in them: a
//! counter and a sorted map from a key to a bounded record.
//!
//! The structures are those of `ic_stable_structures`. What is said here of
//! the functions that call into that crate is taken from its code and is
//! not proved. Like an allocation in std, a call that needs more memory than
//! can be had does not return.

use ic_stable_structures::memory_manager::{MemoryId, MemoryManager, VirtualMemory};
use ic_stable_structures::storable::Blob;
use ic_stable_structures::{Cell, DefaultMemoryImpl, StableBTreeMap};
use vstd::prelude::*;

verus! {

/// No stored record is longer than this many bytes.
pub const MAX_RECORD_SIZE: usize = 1024;

/// One memory, divided into regions that grow independently: in a canister
/// the stable memory, which outlives the program; elsewhere a memory on the
/// heap.
#[verifier::external_body]
pub struct Regions {
    manager: MemoryManager<DefaultMemoryImpl>,
}

/// One region of the memory.
#[verifier::external_body]
pub(crate) struct Region {
    memory: VirtualMemory<DefaultMemoryImpl>,
}

/// A `u64` kept in a region of its own.
#[verifier::external_body]
pub struct IdCounter {
    cell: Cell<u64, VirtualMemory<DefaultMemoryImpl>>,
}

/// A sorted map from `u64` keys to records of at most `MAX_RECORD_SIZE`
/// bytes, kept in a region of its own.
#[verifier::external_body]
pub struct RecordMap {
    map: StableBTreeMap<u64, Blob<MAX_RECORD_SIZE>, VirtualMemory<DefaultMemoryImpl>>,
}

/// The number that the counter holds.
pub uninterp spec fn counter_value(counter: IdCounter) -> u64;

/// The records that the map holds, each under its key.
pub uninterp spec fn map_records(map: RecordMap) -> Map<u64, Seq<u8>>;

/// `MemoryManager::init` on the default memory: in a canister the one
/// stable memory, with the regions as an earlier run left them; elsewhere a
/// new memory on the heap, with every region empty. Stops the program if the
/// memory holds a layout of another version.
#[verifier::external_body]
fn open_regions() -> Regions {
    Regions { manager: MemoryManager::init(DefaultMemoryImpl::default()) }
}

/// `MemoryManager::get`: the region with the given number. 255 is the one
/// number that `MemoryId::new` refuses.
#[verifier::external_body]
pub(crate) fn region(regions: &Regions, id: u8) -> Region
    requires
        id != 255,
{
    Region { memory: regions.manager.get(MemoryId::new(id)) }
}

/// `Cell::init`: the counter that the region holds, or a new one at
/// `initial` where it holds none; `None` where the cell is of another
/// version or cannot be written. Stops the program if the region holds a
/// cell whose value is not a `u64`.
#[verifier::external_body]
pub(crate) fn open_counter(region: Region, initial: u64) -> Option<IdCounter> {
    match Cell::init(region.memory, initial) {
        Ok(cell) => Some(IdCounter { cell }),
        Err(_) => None,
    }
}

/// `StableBTreeMap::init`: the map that the region holds, or a new empty one
/// where it holds none. Stops the program if the region holds a map of
/// another layout.
#[verifier::external_body]
pub(crate) fn open_map(region: Region) -> RecordMap {
    RecordMap { map: StableBTreeMap::init(region.memory) }
}

/// `Cell::get`: the number held.
#[verifier::external_body]
pub(crate) fn counter_get(counter: &IdCounter) -> (value: u64)
    ensures
        value == counter_value(*counter),
{
    *counter.cell.get()
}

/// `Cell::set`: stores `value` and hands back the number held before.
/// `set` fails only where the region cannot grow to take the value; a `u64`
/// takes eight bytes, which fit in the page that the cell has held since it
/// was opened, so no growth is asked for.
#[verifier::external_body]
fn counter_set(counter: &mut IdCounter, value: u64) -> (previous: u64)
    ensures
        previous == counter_value(*old(counter)),
        counter_value(*final(counter)) == value,
{
    counter.cell.set(value).expect("cannot increment id counter")
}

/// `StableBTreeMap::get`: the record under `key`, if there is one.
#[verifier::external_body]
pub(crate) fn map_get(map: &RecordMap, key: u64) -> (record: Option<Vec<u8>>)
    ensures
        record is Some == map_records(*map).contains_key(key),
        record matches Some(bytes) ==> bytes@ == map_records(*map)[key],
{
    match map.map.get(&key) {
        Some(blob) => Some(blob.as_slice().to_vec()),
        None => None,
    }
}

/// `StableBTreeMap::insert`: puts `record` under `key`, in place of what was
/// there, and hands back what was there. A record longer than the bound
/// would stop the program, so it is not admitted.
#[verifier::external_body]
pub(crate) fn map_insert(map: &mut RecordMap, key: u64, record: &Vec<u8>) -> (previous: Option<
    Vec<u8>,
>)
    requires
        record@.len() <= MAX_RECORD_SIZE,
    ensures
        map_records(*final(map)) == map_records(*old(map)).insert(key, record@),
        previous is Some == map_records(*old(map)).contains_key(key),
        previous matches Some(bytes) ==> bytes@ == map_records(*old(map))[key],
{
    let blob = Blob::try_from(record.as_slice()).unwrap();
    match map.map.insert(key, blob) {
        Some(before) => Some(before.as_slice().to_vec()),
        None => None,
    }
}

/// `StableBTreeMap::remove`: takes out the record under `key`, if there is
/// one, and hands it back.
#[verifier::external_body]
pub(crate) fn map_remove(map: &mut RecordMap, key: u64) -> (removed: Option<Vec<u8>>)
    ensures
        map_records(*final(map)) == map_records(*old(map)).remove(key),
        removed is Some == map_records(*old(map)).contains_key(key),
        removed matches Some(bytes) ==> bytes@ == map_records(*old(map))[key],
{
    match map.map.remove(&key) {
        Some(blob) => Some(blob.as_slice().to_vec()),
        None => None,
    }
}

/// `StableBTreeMap::iter`, run to its end: every record with its key, in
/// ascending order of the keys.
#[verifier::external_body]
pub(crate) fn map_entries(map: &RecordMap) -> (entries: Vec<(u64, Vec<u8>)>)
    ensures
        forall|i: int|
            0 <= i < entries@.len() ==> map_records(*map).contains_key(#[trigger] entries@[i].0)
                && map_records(*map)[entries@[i].0] == entries@[i].1@,
        forall|i: int, j: int|
            0 <= i < j < entries@.len() ==> (#[trigger] entries@[i]).0 < (#[trigger] entries@[j]).0,
        forall|key: u64| #[trigger]
            map_records(*map).contains_key(key) ==> exists|i: int|
                0 <= i < entries@.len() && (#[trigger] entries@[i]).0 == key,
{
    map.map.iter().map(|(key, blob)| (key, blob.as_slice().to_vec())).collect()
}

impl Regions {
    /// The regions of the default memory. In a canister every call gives
    /// the regions of the same stable memory, so only one set of structures
    /// is to be opened in a run.
    pub fn new() -> Regions {
        open_regions()
    }
}

impl IdCounter {
    /// The number that the next call of `next` gives out.
    pub fn current(&self) -> (value: u64)
        ensures
            value == counter_value(*self),
    {
        counter_get(self)
    }

    /// Gives out the number held and stores its successor.
    pub fn next(&mut self) -> (id: u64)
        requires
            counter_value(*old(self)) < u64::MAX,
        ensures
            id == counter_value(*old(self)),
            counter_value(*final(self)) == id + 1,
    {
        let current = counter_get(self);
        counter_set(self, current + 1)
    }
}

} // verus!
