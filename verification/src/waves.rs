//! Wave data tier: the ocean-wave table and the maps that describe its wave trains.

use vstd::prelude::*;

use crate::edn::{
    entry_views, lemma_mapping_view, lookup, maps_of, root_map_spec, vector_table,
    vector_table_spec, views, EdnValue, EdnView, TableError,
};

verus! {

/// Errors raised while loading the wave table.
#[derive(Debug, Clone, Copy, PartialEq, Eq, Structural)]
pub enum WaveError {
    /// The source did not parse to a top-level map.
    NotAMap,
    /// The `:terrain/waves` table was missing or not a vector.
    NoTable,
}

/// The `:terrain/waves` vector of the map a source holds.
pub open spec fn wave_table_spec(s: Seq<char>) -> Result<Seq<EdnView>, WaveError> {
    match vector_table_spec(s, "terrain/waves"@) {
        Err(TableError::NotAMap) => Err(WaveError::NotAMap),
        Err(TableError::Missing) => Err(WaveError::NoTable),
        Ok(items) => Ok(items),
    }
}

/// Reads the `:terrain/waves` table (one element per wave train) of an EDN source.
pub fn wave_table(src: &str) -> (r: Result<Vec<EdnValue>, WaveError>)
    ensures
        match r {
            Ok(items) => wave_table_spec(src@) == Ok::<Seq<EdnView>, WaveError>(views(items@)),
            Err(e) => wave_table_spec(src@) == Err::<Seq<EdnView>, WaveError>(e),
        },
{
    match vector_table(src, "terrain/waves") {
        Ok(items) => Ok(items),
        Err(TableError::NotAMap) => Err(WaveError::NotAMap),
        Err(TableError::Missing) => Err(WaveError::NoTable),
    }
}

/// The wave-train maps a source describes: the maps of its `:terrain/waves` vector.
pub open spec fn wave_maps_spec(s: Seq<char>) -> Result<Seq<Seq<(EdnView, EdnView)>>, WaveError> {
    match wave_table_spec(s) {
        Ok(items) => Ok(maps_of(items)),
        Err(e) => Err(e),
    }
}

/// Views of a sequence of maps.
pub open spec fn map_views(v: Seq<Vec<(EdnValue, EdnValue)>>) -> Seq<Seq<(EdnView, EdnView)>> {
    Seq::new(v.len(), |i: int| entry_views(v[i]@))
}

/// Reads the entries of each wave train's map, in table order; elements of the
/// `:terrain/waves` vector that are not maps describe no wave and are skipped.
pub fn wave_entry_maps(src: &str) -> (r: Result<Vec<Vec<(EdnValue, EdnValue)>>, WaveError>)
    ensures
        match r {
            Ok(ms) => wave_maps_spec(src@) == Ok::<Seq<Seq<(EdnView, EdnView)>>, WaveError>(
                map_views(ms@),
            ),
            Err(e) => wave_maps_spec(src@) == Err::<Seq<Seq<(EdnView, EdnView)>>, WaveError>(e),
        },
{
    let mut items = match wave_table(src) {
        Ok(items) => items,
        Err(e) => return Err(e),
    };
    let ghost iv = views(items@);
    let ghost mut i: int = 0;
    let mut out: Vec<Vec<(EdnValue, EdnValue)>> = Vec::new();
    while items.len() > 0
        invariant
            0 <= i <= iv.len(),
            items@.len() == iv.len() - i,
            views(items@) == iv.skip(i),
            map_views(out@) == maps_of(iv.take(i)),
        decreases items.len(),
    {
        assert(iv.take(i + 1).drop_last() =~= iv.take(i));
        let ghost rest = items@;
        assert(views(rest)[0] == iv[i]);
        let item = items.remove(0);
        assert forall|k: int| 0 <= k < items@.len() implies #[trigger] views(items@)[k] == iv.skip(
            i + 1,
        )[k] by {
            assert(items@[k] == rest[k + 1]);
            assert(views(rest)[k + 1] == iv.skip(i)[k + 1]);
        }
        assert(views(items@) =~= iv.skip(i + 1));
        let ghost before = map_views(out@);
        match item {
            EdnValue::Mapping(es) => {
                proof {
                    lemma_mapping_view(es);
                }
                out.push(es);
                assert(map_views(out@) =~= before.push(entry_views(es@)));
            },
            _ => {},
        }
        proof {
            i = i + 1;
        }
    }
    assert(iv.take(i) =~= iv);
    Ok(out)
}

/// The wave-train maps of a source: an error when the source holds no map, another when
/// its root map has no `:terrain/waves` vector, and otherwise the maps of that vector,
/// in order.
pub proof fn lemma_wave_maps_of_source(s: Seq<char>)
    ensures
        wave_maps_spec(s) == match root_map_spec(s) {
            None => Err(WaveError::NotAMap),
            Some(root) => match lookup(root, "terrain/waves"@) {
                Some(EdnView::Vector(items)) => Ok(maps_of(items)),
                _ => Err(WaveError::NoTable),
            },
        },
{
}

} // verus!
