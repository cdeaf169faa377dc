//! NPC-tuning data tier: errors raised while loading NPC tuning tables.

use vstd::prelude::*;

use crate::edn::{entry_views, map_table, map_table_spec, EdnValue, EdnView, TableError};

verus! {

/// Errors raised while loading NPC tuning.
#[derive(Debug, Clone, Copy, PartialEq, Eq)]
pub enum NpcError {
    /// The source did not parse to a top-level map.
    NotAMap,
    /// The expected tuning key was missing or not a map.
    NoTable(&'static str),
}

/// The `:<key>` tuning map of the map a source holds.
pub open spec fn npc_table_spec(s: Seq<char>, key: &'static str) -> Result<
    Seq<(EdnView, EdnView)>,
    NpcError,
> {
    match map_table_spec(s, key@) {
        Err(TableError::NotAMap) => Err(NpcError::NotAMap),
        Err(TableError::Missing) => Err(NpcError::NoTable(key)),
        Ok(es) => Ok(es),
    }
}

/// Reads the `:<key>` tuning map (e.g. `npc/skibidi`) of an EDN source.
pub fn npc_table(src: &str, key: &'static str) -> (r: Result<Vec<(EdnValue, EdnValue)>, NpcError>)
    ensures
        match r {
            Ok(es) => npc_table_spec(src@, key) == Ok::<Seq<(EdnView, EdnView)>, NpcError>(
                entry_views(es@),
            ),
            Err(e) => npc_table_spec(src@, key) == Err::<Seq<(EdnView, EdnView)>, NpcError>(e),
        },
{
    match map_table(src, key) {
        Ok(es) => Ok(es),
        Err(TableError::NotAMap) => Err(NpcError::NotAMap),
        Err(TableError::Missing) => Err(NpcError::NoTable(key)),
    }
}

} // verus!
