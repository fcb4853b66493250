//! Probe-keyed lookups in the raw hash table.

use hasheq::HashEq;
use hasheq::HashMapExt;
use hasheq::RawTable;
use std::hash::Hash;
use std::hash::Hasher;

/// A probe type, distinct from the stored key type `u32` but
/// hash-compatible and comparable with it.
struct Probe(u32);

impl Hash for Probe {
    fn hash<H: Hasher>(&self, state: &mut H) {
        self.0.hash(state);
    }
}

impl PartialEq<u32> for Probe {
    fn eq(&self, other: &u32) -> bool {
        self.0 == *other
    }
}

impl HashEq<u32> for Probe {}

#[test]
fn lookup_finds_every_inserted_key() {
    let mut table: RawTable<u32, String> = RawTable::new();
    table.insert(1, String::from("one"));
    table.insert(2, String::from("two"));
    table.insert(200, String::from("two hundred"));

    let found = table.get_key_value_hasheq(&Probe(1));
    assert!(matches!(found, Some((&1, v)) if v == "one"));
    let found = table.get_key_value_hasheq(&Probe(2));
    assert!(matches!(found, Some((&2, v)) if v == "two"));
    let found = table.get_key_value_hasheq(&Probe(200));
    assert!(matches!(found, Some((&200, v)) if v == "two hundred"));
}

#[test]
fn lookup_misses_absent_key() {
    let mut table: RawTable<u32, String> = RawTable::new();
    table.insert(1, String::from("one"));
    assert!(table.get_key_value_hasheq(&Probe(3)).is_none());

    let empty: RawTable<u32, String> = RawTable::new();
    assert!(empty.get_key_value_hasheq(&Probe(1)).is_none());
}

#[test]
fn mutable_lookup_updates_value_in_place() {
    let mut table: RawTable<u32, String> = RawTable::new();
    table.insert(5, String::from("old"));

    match table.raw_entry_mut_hasheq(&Probe(5)) {
        Some(v) => *v = String::from("new"),
        None => panic!("entry not found"),
    }
    let found = table.get_key_value_hasheq(&Probe(5));
    assert!(matches!(found, Some((&5, v)) if v == "new"));

    assert!(table.raw_entry_mut_hasheq(&Probe(6)).is_none());
}

#[test]
fn lookup_with_explicit_hash_requires_matching_hash() {
    let mut table: RawTable<u32, String> = RawTable::new();
    table.insert_hashed(97, 10, String::from("ten"));

    let found = table.get_key_value_hashed(97, &Probe(10));
    assert!(matches!(found, Some((&10, v)) if v == "ten"));

    // An entry stored under a different hash is invisible to the
    // probe, even though the key compares equal: the silent miss
    // that hash-compatibility checking exists to prevent.
    assert!(table.get_key_value_hashed(98, &Probe(10)).is_none());
}

#[test]
fn equal_hashes_with_unequal_keys_are_told_apart() {
    let mut table: RawTable<u32, String> = RawTable::new();
    table.insert_hashed(7, 1, String::from("one"));
    table.insert_hashed(7, 2, String::from("two"));

    let found = table.get_key_value_hashed(7, &Probe(2));
    assert!(matches!(found, Some((&2, v)) if v == "two"));
    assert!(table.get_key_value_hashed(7, &Probe(3)).is_none());
}
