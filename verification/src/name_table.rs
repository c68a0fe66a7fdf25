//! The table from scene names to textures. It is the hash map of
//! `bevy::utils`, kept behind a handful of functions whose contracts say what
//! the map does with its entries.

use bevy::utils::HashMap;
use vstd::prelude::*;

verus! {

/// A `bevy::utils::HashMap` from names to pairs of a texture id and a render
/// layer. Proofs see nothing inside it; what it holds is `table_entries`.
#[verifier::external_body]
pub struct NameTable {
    entries: HashMap<String, (u64, u8)>,
}

/// What the table holds: for each name that has an entry, its texture id and
/// its render layer.
pub uninterp spec fn table_entries(table: NameTable) -> Map<Seq<char>, (u64, u8)>;

/// No entries at all.
pub open spec fn no_entries() -> Map<Seq<char>, (u64, u8)> {
    Map::empty()
}

/// `HashMap::default`: a map without entries.
#[verifier::external_body]
pub(crate) fn table_new() -> (table: NameTable)
    ensures
        table_entries(table) == no_entries(),
{
    NameTable { entries: HashMap::default() }
}

/// `HashMap::get`: the value of the entry with the given name, if there is
/// one. The table is not changed.
#[verifier::external_body]
pub(crate) fn table_get(table: &NameTable, name: &str) -> (found: Option<(u64, u8)>)
    ensures
        found == (if table_entries(*table).dom().contains(name@) {
            Some(table_entries(*table)[name@])
        } else {
            None
        }),
{
    table.entries.get(name).copied()
}

/// `HashMap::insert`: afterwards the name has the given value, whether or not
/// it had an entry before, and every other entry is as it was.
#[verifier::external_body]
pub(crate) fn table_insert(table: &mut NameTable, name: String, value: (u64, u8))
    ensures
        table_entries(*final(table)) == table_entries(*old(table)).insert(name@, value),
{
    table.entries.insert(name, value);
}

} // verus!
