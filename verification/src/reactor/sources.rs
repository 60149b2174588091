//! The table of registered sources, a `slab::Slab`.
use crate::reactor::source::Source;
use slab::Slab;
use vstd::prelude::*;

verus! {

/// `slab::Slab`, storage for values under keys that it picks.
#[verifier::external_type_specification]
#[verifier::external_body]
#[verifier::reject_recursive_types(T)]
pub struct ExSlab<T>(slab::Slab<T>);

/// The sources in a slab by their keys.
pub uninterp spec fn slab_sources(table: Slab<Source>) -> Map<usize, Source>;

/// The key under which a slab stores the next source.
pub uninterp spec fn slab_next_key(table: Slab<Source>) -> usize;

/// Calls `Slab::new`: a slab that holds nothing and stores the first source under the key zero.
#[verifier::external_body]
pub(crate) fn new_table() -> (table: Slab<Source>)
    ensures
        (slab_sources(table) == Map::<usize, Source>::empty()),
        slab_next_key(table) == 0,
{
    Slab::new()
}

/// Calls `Slab::vacant_entry` and asks the entry for its key: the key under which the next source
/// is stored, which is not in use. The slab is left as it was.
#[verifier::external_body]
pub(crate) fn vacant_key(table: &mut Slab<Source>) -> (key: usize)
    ensures
        key == slab_next_key(*old(table)),
        !slab_sources(*old(table)).contains_key(key),
        slab_sources(*final(table)) == slab_sources(*old(table)),
        slab_next_key(*final(table)) == slab_next_key(*old(table)),
{
    table.vacant_entry().key()
}

/// Calls `Slab::insert`: stores a source under the next key and returns that key. Which key comes
/// after it is left unsaid.
#[verifier::external_body]
pub(crate) fn insert_source(table: &mut Slab<Source>, source: Source) -> (key: usize)
    ensures
        key == slab_next_key(*old(table)),
        slab_sources(*final(table)) == slab_sources(*old(table)).insert(key, source),
{
    table.insert(source)
}

/// Calls `Slab::remove`: takes out the source under a key that is in use. That key is the next one
/// to be used.
#[verifier::external_body]
pub(crate) fn remove_source(table: &mut Slab<Source>, key: usize) -> (source: Source)
    requires
        slab_sources(*old(table)).contains_key(key),
    ensures
        source == slab_sources(*old(table))[key],
        slab_sources(*final(table)) == slab_sources(*old(table)).remove(key),
        slab_next_key(*final(table)) == key,
{
    table.remove(key)
}

/// Calls `Slab::get`: the source under a key, if the key is in use.
#[verifier::external_body]
pub(crate) fn get_source(table: &Slab<Source>, key: usize) -> (source: Option<&Source>)
    ensures
        match source {
            Some(source) => slab_sources(*table).contains_key(key) && *source == slab_sources(
                *table,
            )[key],
            None => !slab_sources(*table).contains_key(key),
        },
{
    table.get(key)
}

/// Calls `Slab::get_mut`: the source under a key for changing, if the key is in use. Nothing else
/// in the slab changes.
#[verifier::external_body]
pub(crate) fn get_source_mut(table: &mut Slab<Source>, key: usize) -> (source: Option<&mut Source>)
    ensures
        match source {
            Some(source) => slab_sources(*old(table)).contains_key(key) && *source == slab_sources(
                *old(table),
            )[key] && slab_sources(*final(table)) == slab_sources(*old(table)).insert(
                key,
                *final(source),
            ),
            None => !slab_sources(*old(table)).contains_key(key) && slab_sources(*final(table))
                == slab_sources(*old(table)),
        },
        slab_next_key(*final(table)) == slab_next_key(*old(table)),
{
    table.get_mut(key)
}

} // verus!
