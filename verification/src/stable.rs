//! The boundary to stable memory.
//!
//! Everything in this module is trusted rather than proved: each function
//! makes one call into `ic_stable_structures` and carries the contract that
//! the rest of the crate relies on. The collections themselves stay opaque,
//! since their types are bounded by traits that the verifier does not know;
//! what they hold is named by [`stored`] and [`held`].
//!
//! The contracts speak of well-behaved memory: writing may abort the process
//! when memory runs out, and opening may abort on memory that another
//! program laid out.

use vstd::prelude::*;
use ic_stable_structures::memory_manager::{MemoryId, MemoryManager, VirtualMemory};
use ic_stable_structures::storable::Blob;
use ic_stable_structures::{Cell, DefaultMemoryImpl, StableBTreeMap};

verus! {

/// The largest record, in bytes, that a [`RecordMap`] accepts.
pub const MAX_RECORD_SIZE: usize = 1024;

/// Stable memory divided into numbered regions
/// (`MemoryManager<DefaultMemoryImpl>`).
#[verifier::external_body]
pub struct Regions {
    manager: MemoryManager<DefaultMemoryImpl>,
}

/// One region of stable memory (`VirtualMemory<DefaultMemoryImpl>`).
#[verifier::external_body]
pub struct Region {
    memory: VirtualMemory<DefaultMemoryImpl>,
}

/// A stable B-tree from identifiers to encoded records
/// (`StableBTreeMap<u64, Blob<1024>, _>`).
#[verifier::external_body]
pub struct RecordMap {
    tree: StableBTreeMap<u64, Blob<1024>, VirtualMemory<DefaultMemoryImpl>>,
}

/// A stable cell holding one `u64` (`Cell<u64, _>`).
#[verifier::external_body]
pub struct IdCell {
    cell: Cell<u64, VirtualMemory<DefaultMemoryImpl>>,
}

/// The entries of a [`RecordMap`]: each key with the bytes stored under it.
pub uninterp spec fn stored(map: RecordMap) -> Map<u64, Seq<u8>>;

/// The value that an [`IdCell`] currently holds.
pub uninterp spec fn held(cell: IdCell) -> u64;

/// `MemoryManager::init` on the default memory of the platform. A memory that
/// already carries a manager is loaded, any other is formatted; nothing is
/// claimed about the result. Where the default memory is the one stable
/// memory of the process, a second manager would share it with the first.
#[verifier::external_body]
pub(crate) fn regions_init() -> Regions {
    Regions { manager: MemoryManager::init(DefaultMemoryImpl::default()) }
}

/// `MemoryManager::get`, for the numbers 0 to 4: five regions that share no
/// memory. The manager is used up, so that no region is handed out twice.
#[verifier::external_body]
pub(crate) fn regions_split(regions: Regions) -> (Region, Region, Region, Region, Region) {
    let manager = regions.manager;
    (
        Region { memory: manager.get(MemoryId::new(0)) },
        Region { memory: manager.get(MemoryId::new(1)) },
        Region { memory: manager.get(MemoryId::new(2)) },
        Region { memory: manager.get(MemoryId::new(3)) },
        Region { memory: manager.get(MemoryId::new(4)) },
    )
}

/// `StableBTreeMap::init`: loads the map found in the region, or creates an
/// empty one. What it holds depends on the region, so nothing is claimed.
#[verifier::external_body]
pub(crate) fn map_init(region: Region) -> RecordMap {
    RecordMap { tree: StableBTreeMap::init(region.memory) }
}

/// `StableBTreeMap::new`: a new map without entries, written over whatever
/// the region held.
#[verifier::external_body]
pub(crate) fn map_new(region: Region) -> (made: RecordMap)
    ensures
        stored(made).dom() == Set::<u64>::empty(),
{
    RecordMap { tree: StableBTreeMap::new(region.memory) }
}

/// `StableBTreeMap::get`: the value under `key`, if the map has one.
#[verifier::external_body]
pub(crate) fn map_get(map: &RecordMap, key: u64) -> (found: Option<Vec<u8>>)
    ensures
        found is Some <==> stored(*map).dom().contains(key),
        found is Some ==> found->Some_0@ == stored(*map)[key],
{
    map.tree.get(&key).map(|blob| blob.as_slice().to_vec())
}

/// `StableBTreeMap::insert`: puts `value` under `key`, replacing what was
/// there. The map takes values of at most [`MAX_RECORD_SIZE`] bytes.
#[verifier::external_body]
pub(crate) fn map_insert(map: &mut RecordMap, key: u64, value: &Vec<u8>)
    requires
        value@.len() <= MAX_RECORD_SIZE,
    ensures
        stored(*final(map)) == stored(*old(map)).insert(key, value@),
{
    let blob = Blob::<1024>::try_from(value.as_slice()).expect("at most 1024 bytes");
    let _ = map.tree.insert(key, blob);
}

/// `StableBTreeMap::remove`: takes `key` out of the map and returns the value
/// that was under it, if any.
#[verifier::external_body]
pub(crate) fn map_remove(map: &mut RecordMap, key: u64) -> (removed: Option<Vec<u8>>)
    ensures
        stored(*final(map)) == stored(*old(map)).remove(key),
        removed is Some <==> stored(*old(map)).dom().contains(key),
        removed is Some ==> removed->Some_0@ == stored(*old(map))[key],
{
    map.tree.remove(&key).map(|blob| blob.as_slice().to_vec())
}

/// `StableBTreeMap::iter`, collected: every entry of the map exactly once, in
/// ascending order of the keys.
#[verifier::external_body]
pub(crate) fn map_entries(map: &RecordMap) -> (entries: Vec<(u64, Vec<u8>)>)
    ensures
        forall|i: int, j: int| 0 <= i < j < entries@.len() ==> entries@[i].0 < entries@[j].0,
        forall|i: int|
            0 <= i < entries@.len() ==> stored(*map).contains_pair(
                #[trigger] entries@[i].0,
                entries@[i].1@,
            ),
        forall|key: u64|
            stored(*map).dom().contains(key) ==> exists|i: int|
                0 <= i < entries@.len() && #[trigger] entries@[i].0 == key,
{
    map.tree.iter().map(|(key, blob)| (key, blob.as_slice().to_vec())).collect()
}

/// `Cell::init`: the cell found in the region, or a new one holding
/// `initial`. `None` when the region carries a cell layout that this version
/// of the crate cannot read, or cannot be grown to hold the value.
#[verifier::external_body]
pub(crate) fn cell_init(region: Region, initial: u64) -> Option<IdCell> {
    match Cell::init(region.memory, initial) {
        Ok(cell) => Some(IdCell { cell }),
        Err(_) => None,
    }
}

/// `Cell::new`: a new cell holding `value`, written over whatever the region
/// held. `None` when the region cannot be grown to hold the value.
#[verifier::external_body]
pub(crate) fn cell_new(region: Region, value: u64) -> (made: Option<IdCell>)
    ensures
        made is Some ==> held(made->Some_0) == value,
{
    match Cell::new(region.memory, value) {
        Ok(cell) => Some(IdCell { cell }),
        Err(_) => None,
    }
}

/// `Cell::get`: the value in the cell.
#[verifier::external_body]
pub(crate) fn cell_get(cell: &IdCell) -> (value: u64)
    ensures
        value == held(*cell),
{
    *cell.cell.get()
}

/// `Cell::set`: writes `value` through to memory and returns the value it
/// replaced. `Cell::set` reports an error only when it has to grow the memory
/// and cannot, and it grows the memory only when the value does not fit in
/// the pages that the cell has or when it has none. A cell that exists has a
/// page, and a `u64` takes eight bytes of it, so the write is never refused.
#[verifier::external_body]
pub(crate) fn cell_set(cell: &mut IdCell, value: u64) -> (previous: Option<u64>)
    ensures
        previous == Some(held(*old(cell))),
        held(*final(cell)) == value,
{
    cell.cell.set(value).ok()
}

} // verus!
