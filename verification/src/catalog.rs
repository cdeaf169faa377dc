//! Game-catalog data tier: genres, catalog entries and their comparable mirror.

use vstd::prelude::*;

use crate::edn::{
    entry_views, keyword_field, keyword_name_field, lookup, maps_of, mget, root_map_spec,
    str_field, string_field, vector_table, vector_table_spec, views, EdnValue, EdnView, TableError,
};
use crate::text::str_eq;

verus! {

/// Genre of a catalog game.
#[derive(Debug, Clone, Copy, PartialEq, Eq, Structural)]
pub enum Genre {
    IoMultiplayer,
    Puzzle,
    Rpg,
    Simulation,
    VisualNovel,
    Card,
    Arcade,
    Adult,
    Brainrot,
    Chase,
}

/// Errors raised while loading the game catalog.
#[derive(Debug, Clone, Copy, PartialEq, Eq, Structural)]
pub enum CatalogError {
    /// The source did not parse to a top-level map.
    NotAMap,
    /// The `:game/catalog` table was missing or not a vector.
    NoCatalog,
}

/// One catalog game.
#[derive(Debug, Clone)]
pub struct GameDef {
    pub slug: String,
    pub title: String,
    pub genre: Genre,
    pub max_players: u32,
    pub description: String,
}

/// Comparable mirror of [`GameDef`]; the genre is held as its keyword id.
#[derive(Debug, Clone, PartialEq)]
pub struct GameDefSpec {
    /// Stable game slug (e.g. `"agar"`).
    pub slug: String,
    /// Display title.
    pub title: String,
    /// Hyphenated genre keyword id (e.g. `"io-multiplayer"`).
    pub genre: String,
    /// Max concurrent players.
    pub max_players: u32,
    /// One-line description.
    pub description: String,
}

/// Mathematical value of a [`GameDef`].
#[verifier::ext_equal]
pub struct GameDefView {
    pub slug: Seq<char>,
    pub title: Seq<char>,
    pub genre: Genre,
    pub max_players: u32,
    pub description: Seq<char>,
}

/// Mathematical value of a [`GameDefSpec`].
#[verifier::ext_equal]
pub struct GameDefSpecView {
    pub slug: Seq<char>,
    pub title: Seq<char>,
    pub genre: Seq<char>,
    pub max_players: u32,
    pub description: Seq<char>,
}

impl View for GameDef {
    type V = GameDefView;

    open spec fn view(&self) -> GameDefView {
        GameDefView {
            slug: self.slug@,
            title: self.title@,
            genre: self.genre,
            max_players: self.max_players,
            description: self.description@,
        }
    }
}

impl View for GameDefSpec {
    type V = GameDefSpecView;

    open spec fn view(&self) -> GameDefSpecView {
        GameDefSpecView {
            slug: self.slug@,
            title: self.title@,
            genre: self.genre@,
            max_players: self.max_players,
            description: self.description@,
        }
    }
}

/// The hyphenated keyword id of a genre.
pub open spec fn spec_genre_id(g: Genre) -> Seq<char> {
    match g {
        Genre::IoMultiplayer => "io-multiplayer"@,
        Genre::Puzzle => "puzzle"@,
        Genre::Rpg => "rpg"@,
        Genre::Simulation => "simulation"@,
        Genre::VisualNovel => "visual-novel"@,
        Genre::Card => "card"@,
        Genre::Arcade => "arcade"@,
        Genre::Adult => "adult"@,
        Genre::Brainrot => "brainrot"@,
        Genre::Chase => "chase"@,
    }
}

/// The genre a keyword id names; an unknown id names `IoMultiplayer`.
pub open spec fn spec_genre_from_id(id: Seq<char>) -> Genre {
    if id == "puzzle"@ {
        Genre::Puzzle
    } else if id == "rpg"@ {
        Genre::Rpg
    } else if id == "simulation"@ {
        Genre::Simulation
    } else if id == "visual-novel"@ {
        Genre::VisualNovel
    } else if id == "card"@ {
        Genre::Card
    } else if id == "arcade"@ {
        Genre::Arcade
    } else if id == "adult"@ {
        Genre::Adult
    } else if id == "brainrot"@ {
        Genre::Brainrot
    } else if id == "chase"@ {
        Genre::Chase
    } else {
        Genre::IoMultiplayer
    }
}

/// An integer field as a `u32`: negative values read as 0, larger ones keep their low
/// 32 bits, and a missing or non-integer field reads as 0.
pub open spec fn count_field(v: Option<EdnView>) -> u32 {
    match v {
        Some(EdnView::Int(i)) => (if i < 0 {
            0
        } else {
            i
        }) as u32,
        _ => 0,
    }
}

/// The catalog entry mirror a map of fields describes.
pub open spec fn game_def_spec_from_entries(es: Seq<(EdnView, EdnView)>) -> GameDefSpecView {
    GameDefSpecView {
        slug: str_field(lookup(es, "slug"@)),
        title: str_field(lookup(es, "title"@)),
        genre: keyword_field(lookup(es, "genre"@)),
        max_players: count_field(lookup(es, "max-players"@)),
        description: str_field(lookup(es, "description"@)),
    }
}

/// The entries a catalog vector describes: one per element that is a map, in order.
pub open spec fn catalog_entries(items: Seq<EdnView>) -> Seq<GameDefSpecView>
    decreases items.len(),
{
    if items.len() == 0 {
        Seq::empty()
    } else {
        let rest = catalog_entries(items.drop_last());
        match items.last() {
            EdnView::Mapping(es) => rest.push(game_def_spec_from_entries(es)),
            _ => rest,
        }
    }
}

/// The catalog a source describes: the `:game/catalog` vector of its root map.
pub open spec fn catalog_spec(s: Seq<char>) -> Result<Seq<GameDefSpecView>, CatalogError> {
    match vector_table_spec(s, "game/catalog"@) {
        Err(TableError::NotAMap) => Err(CatalogError::NotAMap),
        Err(TableError::Missing) => Err(CatalogError::NoCatalog),
        Ok(items) => Ok(catalog_entries(items)),
    }
}

/// Views of a sequence of mirrors.
pub open spec fn spec_views(v: Seq<GameDefSpec>) -> Seq<GameDefSpecView> {
    Seq::new(v.len(), |i: int| v[i]@)
}

/// Views of a sequence of catalog entries.
pub open spec fn def_views(v: Seq<GameDef>) -> Seq<GameDefView> {
    Seq::new(v.len(), |i: int| v[i]@)
}

/// Whether `id` is the keyword id of some genre.
pub open spec fn is_genre_id(id: Seq<char>) -> bool {
    exists|g: Genre| spec_genre_id(g) == id
}

/// The mirror of a catalog entry: same fields, genre as its id.
pub open spec fn game_def_spec_of(d: GameDefView) -> GameDefSpecView {
    GameDefSpecView {
        slug: d.slug,
        title: d.title,
        genre: spec_genre_id(d.genre),
        max_players: d.max_players,
        description: d.description,
    }
}

/// The catalog entry a mirror describes: same fields, genre read from its id.
pub open spec fn game_def_of(s: GameDefSpecView) -> GameDefView {
    GameDefView {
        slug: s.slug,
        title: s.title,
        genre: spec_genre_from_id(s.genre),
        max_players: s.max_players,
        description: s.description,
    }
}

/// The hyphenated `:genre` keyword id for a genre.
pub fn genre_id(g: &Genre) -> (id: &'static str)
    ensures
        id@ == spec_genre_id(*g),
{
    match g {
        Genre::IoMultiplayer => "io-multiplayer",
        Genre::Puzzle => "puzzle",
        Genre::Rpg => "rpg",
        Genre::Simulation => "simulation",
        Genre::VisualNovel => "visual-novel",
        Genre::Card => "card",
        Genre::Arcade => "arcade",
        Genre::Adult => "adult",
        Genre::Brainrot => "brainrot",
        Genre::Chase => "chase",
    }
}

/// Inverse of [`genre_id`]; unknown ids fall back to `IoMultiplayer`.
pub fn genre_from_id(id: &str) -> (g: Genre)
    ensures
        g == spec_genre_from_id(id@),
{
    if str_eq(id, "puzzle") {
        Genre::Puzzle
    } else if str_eq(id, "rpg") {
        Genre::Rpg
    } else if str_eq(id, "simulation") {
        Genre::Simulation
    } else if str_eq(id, "visual-novel") {
        Genre::VisualNovel
    } else if str_eq(id, "card") {
        Genre::Card
    } else if str_eq(id, "arcade") {
        Genre::Arcade
    } else if str_eq(id, "adult") {
        Genre::Adult
    } else if str_eq(id, "brainrot") {
        Genre::Brainrot
    } else if str_eq(id, "chase") {
        Genre::Chase
    } else {
        Genre::IoMultiplayer
    }
}

impl GameDefSpec {
    /// Builds a mirror from one catalog entry's map (missing or mistyped fields read as
    /// `""` or 0).
    pub fn from_map(m: &[(EdnValue, EdnValue)]) -> (r: Self)
        ensures
            r@ == game_def_spec_from_entries(entry_views(m@)),
    {
        let genre = keyword_name_field(mget(m, "genre"));
        let max_players: u32 = match mget(m, "max-players") {
            Some(v) => match v.as_integer() {
                Some(i) => (if i < 0 {
                    0
                } else {
                    i
                }) as u32,
                None => 0,
            },
            None => 0,
        };
        GameDefSpec {
            slug: string_field(mget(m, "slug")),
            title: string_field(mget(m, "title")),
            genre,
            max_players,
            description: string_field(mget(m, "description")),
        }
    }

    /// Reads the mirror straight off a catalog entry.
    pub fn from_game_def(g: &GameDef) -> (r: Self)
        ensures
            r@ == game_def_spec_of(g@),
    {
        GameDefSpec {
            slug: g.slug.clone(),
            title: g.title.clone(),
            genre: genre_id(&g.genre).to_owned(),
            max_players: g.max_players,
            description: g.description.clone(),
        }
    }
}

/// Rebuilds the catalog entry a mirror describes.
pub fn spec_to_game_def(s: &GameDefSpec) -> (r: GameDef)
    ensures
        r@ == game_def_of(s@),
{
    GameDef {
        slug: s.slug.clone(),
        title: s.title.clone(),
        genre: genre_from_id(s.genre.as_str()),
        max_players: s.max_players,
        description: s.description.clone(),
    }
}

/// Parses the `:game/catalog` table of an EDN source into ordered mirrors.
pub fn catalog_specs_from_edn(src: &str) -> (r: Result<Vec<GameDefSpec>, CatalogError>)
    ensures
        match r {
            Ok(v) => catalog_spec(src@) == Ok::<Seq<GameDefSpecView>, CatalogError>(spec_views(v@)),
            Err(e) => catalog_spec(src@) == Err::<Seq<GameDefSpecView>, CatalogError>(e),
        },
{
    let items = match vector_table(src, "game/catalog") {
        Ok(items) => items,
        Err(TableError::NotAMap) => return Err(CatalogError::NotAMap),
        Err(TableError::Missing) => return Err(CatalogError::NoCatalog),
    };
    let ghost iv = views(items@);
    let mut out: Vec<GameDefSpec> = Vec::new();
    let mut i: usize = 0;
    assert(iv.take(0) =~= Seq::<EdnView>::empty());
    assert(spec_views(out@) =~= Seq::<GameDefSpecView>::empty());
    while i < items.len()
        invariant
            i <= items@.len(),
            iv == views(items@),
            spec_views(out@) == catalog_entries(iv.take(i as int)),
        decreases items@.len() - i,
    {
        assert(iv.take(i + 1).drop_last() =~= iv.take(i as int));
        assert(iv.take(i + 1).last() == items@[i as int]@);
        let ghost before = spec_views(out@);
        match items[i].as_map() {
            Some(m) => {
                let e = GameDefSpec::from_map(m);
                out.push(e);
                assert(spec_views(out@) =~= before.push(e@));
            },
            None => {},
        }
        i = i + 1;
    }
    assert(iv.take(items@.len() as int) =~= iv);
    Ok(out)
}

/// Parses the `:game/catalog` table of an EDN source into catalog entries.
pub fn catalog_from_edn(src: &str) -> (r: Result<Vec<GameDef>, CatalogError>)
    ensures
        match r {
            Ok(v) => catalog_spec(src@) matches Ok(ss) && def_views(v@) == ss.map_values(
                |x: GameDefSpecView| game_def_of(x),
            ),
            Err(e) => catalog_spec(src@) == Err::<Seq<GameDefSpecView>, CatalogError>(e),
        },
{
    let specs = catalog_specs_from_edn(src)?;
    let mut out: Vec<GameDef> = Vec::new();
    let mut i: usize = 0;
    while i < specs.len()
        invariant
            i <= specs@.len(),
            out@.len() == i,
            def_views(out@) == spec_views(specs@).take(i as int).map_values(
                |x: GameDefSpecView| game_def_of(x),
            ),
        decreases specs@.len() - i,
    {
        let ghost before = def_views(out@);
        let ghost old_out = out@;
        let d = spec_to_game_def(&specs[i]);
        out.push(d);
        let ghost target = spec_views(specs@).take(i + 1).map_values(
            |x: GameDefSpecView| game_def_of(x),
        );
        let ghost prev = spec_views(specs@).take(i as int).map_values(
            |x: GameDefSpecView| game_def_of(x),
        );
        assert forall|j: int| 0 <= j < i + 1 implies #[trigger] def_views(out@)[j] == target[j] by {
            if j < i {
                assert(out@[j] == old_out[j]);
                assert(before[j] == prev[j]);
            } else {
                assert(out@[j] == d);
            }
        }
        assert(def_views(out@) =~= spec_views(specs@).take(i + 1).map_values(
            |x: GameDefSpecView| game_def_of(x),
        ));
        i = i + 1;
    }
    assert(spec_views(specs@).take(specs@.len() as int) =~= spec_views(specs@));
    Ok(out)
}

proof fn lemma_genre_ids_distinct()
    ensures
        forall|a: Genre, b: Genre| a != b ==> spec_genre_id(a) != spec_genre_id(b),
{
    reveal_strlit("io-multiplayer");
    reveal_strlit("puzzle");
    reveal_strlit("rpg");
    reveal_strlit("simulation");
    reveal_strlit("visual-novel");
    reveal_strlit("card");
    reveal_strlit("arcade");
    reveal_strlit("adult");
    reveal_strlit("brainrot");
    reveal_strlit("chase");
    assert forall|a: Genre, b: Genre| a != b implies spec_genre_id(a) != spec_genre_id(b) by {
        let x = spec_genre_id(a);
        let y = spec_genre_id(b);
        if x.len() == y.len() {
            assert(x[0] != y[0] || x[1] != y[1]);
        }
    }
}

/// Reading a genre's id back gives the same genre.
pub proof fn lemma_genre_id_round_trip(g: Genre)
    ensures
        spec_genre_from_id(spec_genre_id(g)) == g,
{
    lemma_genre_ids_distinct();
    let ids = seq![
        spec_genre_id(Genre::IoMultiplayer),
        spec_genre_id(Genre::Puzzle),
        spec_genre_id(Genre::Rpg),
        spec_genre_id(Genre::Simulation),
        spec_genre_id(Genre::VisualNovel),
        spec_genre_id(Genre::Card),
        spec_genre_id(Genre::Arcade),
        spec_genre_id(Genre::Adult),
        spec_genre_id(Genre::Brainrot),
        spec_genre_id(Genre::Chase),
    ];
    assert(ids.len() == 10);
}

/// A catalog entry turned into its mirror and back is the same entry.
pub proof fn lemma_game_def_round_trip(d: GameDefView)
    ensures
        game_def_of(game_def_spec_of(d)) == d,
{
    lemma_genre_id_round_trip(d.genre);
}

/// A mirror whose genre is a known id, turned into an entry and back, is the same mirror.
pub proof fn lemma_spec_round_trips_through_game_def(s: GameDefSpecView)
    requires
        is_genre_id(s.genre),
    ensures
        game_def_spec_of(game_def_of(s)) == s,
{
    let g = choose|g: Genre| spec_genre_id(g) == s.genre;
    lemma_genre_id_round_trip(g);
}

/// Each field of a catalog entry's mirror comes from the entry key of the same name:
/// `:slug`, `:title` and `:description` give their string (else `""`), `:genre` gives
/// its keyword's name (else `""`), and `:max-players` gives its integer, with a
/// negative count read as 0 (a missing or non-integer count is 0 too).
pub proof fn lemma_catalog_entry_fields(es: Seq<(EdnView, EdnView)>)
    ensures
        ({
            let r = game_def_spec_from_entries(es);
            &&& (match lookup(es, "slug"@) {
                Some(EdnView::Str(t)) => r.slug == t,
                _ => r.slug == Seq::<char>::empty(),
            })
            &&& (match lookup(es, "title"@) {
                Some(EdnView::Str(t)) => r.title == t,
                _ => r.title == Seq::<char>::empty(),
            })
            &&& (match lookup(es, "description"@) {
                Some(EdnView::Str(t)) => r.description == t,
                _ => r.description == Seq::<char>::empty(),
            })
            &&& (match lookup(es, "genre"@) {
                Some(EdnView::Keyword(k)) => r.genre == k,
                _ => r.genre == Seq::<char>::empty(),
            })
            &&& (match lookup(es, "max-players"@) {
                Some(EdnView::Int(i)) => (i < 0 ==> r.max_players == 0) && (0 <= i <= u32::MAX
                    ==> r.max_players == i),
                _ => r.max_players == 0,
            })
        }),
{
}

/// The catalog has one entry per map in the table, in table order: its `i`-th entry is
/// read from the `i`-th map, and elements that are not maps are skipped.
pub proof fn lemma_catalog_entries_follow_maps(items: Seq<EdnView>)
    ensures
        catalog_entries(items) == maps_of(items).map_values(
            |es: Seq<(EdnView, EdnView)>| game_def_spec_from_entries(es),
        ),
    decreases items.len(),
{
    if items.len() > 0 {
        lemma_catalog_entries_follow_maps(items.drop_last());
        let f = |es: Seq<(EdnView, EdnView)>| game_def_spec_from_entries(es);
        let prev = maps_of(items.drop_last());
        match items.last() {
            EdnView::Mapping(es) => {
                assert(prev.push(es).map_values(f) =~= prev.map_values(f).push(f(es)));
            },
            _ => {},
        }
    } else {
        assert(maps_of(items).map_values(
            |es: Seq<(EdnView, EdnView)>| game_def_spec_from_entries(es),
        ) =~= Seq::<GameDefSpecView>::empty());
    }
}

/// Rebuilding an entry from its mirror keeps every field where it was: the slug, title,
/// player limit and description are the mirror's own, and a genre id names its genre.
pub proof fn lemma_game_def_of_fields(s: GameDefSpecView, g: Genre)
    ensures
        game_def_of(s).slug == s.slug,
        game_def_of(s).title == s.title,
        game_def_of(s).max_players == s.max_players,
        game_def_of(s).description == s.description,
        s.genre == spec_genre_id(g) ==> game_def_of(s).genre == g,
{
    lemma_genre_id_round_trip(g);
}

/// An entry's mirror keeps every field where it was, with the genre as its keyword id.
pub proof fn lemma_game_def_spec_of_fields(d: GameDefView)
    ensures
        game_def_spec_of(d).slug == d.slug,
        game_def_spec_of(d).title == d.title,
        game_def_spec_of(d).max_players == d.max_players,
        game_def_spec_of(d).description == d.description,
        spec_genre_from_id(game_def_spec_of(d).genre) == d.genre,
{
    lemma_genre_id_round_trip(d.genre);
}

/// The catalog of a source: an error when the source holds no map, another when its
/// root map has no `:game/catalog` vector (the last such key counting), and otherwise
/// one mirror per map of that vector, in order.
pub proof fn lemma_catalog_of_source(s: Seq<char>)
    ensures
        catalog_spec(s) == match root_map_spec(s) {
            None => Err(CatalogError::NotAMap),
            Some(root) => match lookup(root, "game/catalog"@) {
                Some(EdnView::Vector(items)) => Ok(
                    maps_of(items).map_values(
                        |es: Seq<(EdnView, EdnView)>| game_def_spec_from_entries(es),
                    ),
                ),
                _ => Err(CatalogError::NoCatalog),
            },
        },
{
    if let Some(root) = root_map_spec(s) {
        if let Some(EdnView::Vector(items)) = lookup(root, "game/catalog"@) {
            lemma_catalog_entries_follow_maps(items);
        }
    }
}

} // verus!
