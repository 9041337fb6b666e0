//! The table of connections: the records of the connected consumers, each
//! under a slot number that stays its own until the consumer leaves.
//!
//! The table is a `slab::Slab`. What it holds is named by
//! [`spec_entries`]; the functions below say what each operation of the
//! slab does to that, as the slab's source shows it. None of them is
//! proved here.

use crate::source::peer::{Peer, PeerView};
use slab::Slab;
use vstd::prelude::*;

verus! {

/// `slab::Slab`, opaque to the verifier.
#[verifier::external_type_specification]
#[verifier::external_body]
#[verifier::reject_recursive_types(T)]
pub struct ExSlab<T>(Slab<T>);

/// What a table holds: the record under each occupied slot.
pub uninterp spec fn spec_entries(table: Slab<Peer>) -> Map<usize, Peer>;

/// The records of a table as mathematical values.
pub open spec fn spec_records(entries: Map<usize, Peer>) -> Map<usize, PeerView> {
    Map::new(|slot: usize| entries.dom().contains(slot), |slot: usize| entries[slot]@)
}

/// The view of a table with one more record.
pub proof fn lemma_views_insert(entries: Map<usize, Peer>, slot: usize, peer: Peer)
    ensures
        spec_records(entries.insert(slot, peer)) == spec_records(entries).insert(slot, peer@),
{
    assert(spec_records(entries.insert(slot, peer)) =~= spec_records(entries).insert(slot, peer@));
}

/// The view of a table with one record less.
pub proof fn lemma_views_remove(entries: Map<usize, Peer>, slot: usize)
    ensures
        spec_records(entries.remove(slot)) == spec_records(entries).remove(slot),
{
    assert(spec_records(entries.remove(slot)) =~= spec_records(entries).remove(slot));
}

/// `Slab::with_capacity`: a table with room for `capacity` records and
/// none in it.
#[verifier::external_body]
pub(crate) fn with_capacity(capacity: usize) -> (table: Slab<Peer>)
    ensures
        spec_entries(table).dom() == Set::<usize>::empty(),
{
    Slab::with_capacity(capacity)
}

/// `Slab::insert`: stores the record under a slot that was vacant, and
/// returns that slot; every other slot keeps what it had. (The slab grows
/// when it is full, and stops the program only where memory does.)
#[verifier::external_body]
pub(crate) fn insert(table: &mut Slab<Peer>, peer: Peer) -> (slot: usize)
    ensures
        !spec_entries(*old(table)).dom().contains(slot),
        spec_entries(*final(table)) == spec_entries(*old(table)).insert(slot, peer),
{
    table.insert(peer)
}

/// `Slab::try_remove`: takes out and returns the record under `slot`, if
/// there is one; every other slot keeps what it had.
#[verifier::external_body]
pub(crate) fn try_remove(table: &mut Slab<Peer>, slot: usize) -> (removed: Option<Peer>)
    ensures
        removed is Some == spec_entries(*old(table)).dom().contains(slot),
        removed matches Some(peer) ==> peer == spec_entries(*old(table))[slot],
        spec_entries(*final(table)) == spec_entries(*old(table)).remove(slot),
{
    table.try_remove(slot)
}

/// `Slab::get`: the record under `slot`, if there is one.
#[verifier::external_body]
pub(crate) fn get(table: &Slab<Peer>, slot: usize) -> (found: Option<&Peer>)
    ensures
        found is Some == spec_entries(*table).dom().contains(slot),
        found matches Some(peer) ==> *peer == spec_entries(*table)[slot],
{
    table.get(slot)
}

/// `Slab::get_mut`: the record under `slot`, if there is one, for change
/// in place; every other slot keeps what it has.
#[verifier::external_body]
pub(crate) fn get_mut(table: &mut Slab<Peer>, slot: usize) -> (found: Option<&mut Peer>)
    ensures
        found is Some == spec_entries(*old(table)).dom().contains(slot),
        found matches Some(peer) ==> *peer == spec_entries(*old(table))[slot] && spec_entries(
            *final(table),
        ) == spec_entries(*old(table)).insert(slot, *final(peer)),
        found is None ==> spec_entries(*final(table)) == spec_entries(*old(table)),
{
    table.get_mut(slot)
}

/// `Slab::iter`, keeping the slot of each item: the occupied slots, each
/// once, in rising order.
#[verifier::external_body]
pub(crate) fn keys(table: &Slab<Peer>) -> (slots: Vec<usize>)
    ensures
        forall|i: int, j: int| 0 <= i < j < slots@.len() ==> slots@[i] < slots@[j],
        forall|slot: usize| slots@.contains(slot) <==> spec_entries(*table).dom().contains(slot),
{
    table.iter().map(|(slot, _)| slot).collect()
}

/// `Slab::clear`: empties the table.
#[verifier::external_body]
pub(crate) fn clear(table: &mut Slab<Peer>)
    ensures
        spec_entries(*final(table)).dom() == Set::<usize>::empty(),
{
    table.clear()
}

} // verus!
