//! Brainrot-evolution data tier: character keyword ids and the loader errors.

use vstd::prelude::*;

use crate::edn::{
    entry_views, keyword_field, keyword_name_field, lookup, maps_of, mget, num_field,
    num_field_of, root_map_spec, opt_str_field, opt_view, optional_string_field, str_field, string_field, vector_table,
    vector_table_spec, views, EdnValue, EdnView, NumField, NumFieldView, TableError,
};
use crate::text::str_eq;

verus! {

/// The six brainrot characters an evolution chain can belong to.
#[derive(Debug, Clone, Copy, PartialEq, Eq, Structural)]
pub enum BrainrotCharacter {
    Skibidi,
    Sigma,
    Ohio,
    Grimace,
    Rizz,
    Fanum,
}

/// Errors raised while loading the brainrot-evolution table.
#[derive(Debug, Clone, Copy, PartialEq, Eq, Structural)]
pub enum BrainrotError {
    /// The source did not parse to a top-level map.
    NotAMap,
    /// The `:game/brainrot-evolution` table was missing or not a vector.
    NoTable,
}

/// The hyphenated keyword id of a character.
pub open spec fn spec_character_id(c: BrainrotCharacter) -> Seq<char> {
    match c {
        BrainrotCharacter::Skibidi => "skibidi"@,
        BrainrotCharacter::Sigma => "sigma"@,
        BrainrotCharacter::Ohio => "ohio"@,
        BrainrotCharacter::Grimace => "grimace"@,
        BrainrotCharacter::Rizz => "rizz"@,
        BrainrotCharacter::Fanum => "fanum"@,
    }
}

/// The character a keyword id names; an unknown id names `Skibidi`.
pub open spec fn spec_character_from_id(id: Seq<char>) -> BrainrotCharacter {
    if id == "sigma"@ {
        BrainrotCharacter::Sigma
    } else if id == "ohio"@ {
        BrainrotCharacter::Ohio
    } else if id == "grimace"@ {
        BrainrotCharacter::Grimace
    } else if id == "rizz"@ {
        BrainrotCharacter::Rizz
    } else if id == "fanum"@ {
        BrainrotCharacter::Fanum
    } else {
        BrainrotCharacter::Skibidi
    }
}

/// The hyphenated `:character` keyword id for a character.
pub fn character_id(c: BrainrotCharacter) -> (id: &'static str)
    ensures
        id@ == spec_character_id(c),
{
    match c {
        BrainrotCharacter::Skibidi => "skibidi",
        BrainrotCharacter::Sigma => "sigma",
        BrainrotCharacter::Ohio => "ohio",
        BrainrotCharacter::Grimace => "grimace",
        BrainrotCharacter::Rizz => "rizz",
        BrainrotCharacter::Fanum => "fanum",
    }
}

/// Inverse of [`character_id`]; unknown ids fall back to `Skibidi`.
pub fn character_from_id(id: &str) -> (c: BrainrotCharacter)
    ensures
        c == spec_character_from_id(id@),
{
    if str_eq(id, "sigma") {
        BrainrotCharacter::Sigma
    } else if str_eq(id, "ohio") {
        BrainrotCharacter::Ohio
    } else if str_eq(id, "grimace") {
        BrainrotCharacter::Grimace
    } else if str_eq(id, "rizz") {
        BrainrotCharacter::Rizz
    } else if str_eq(id, "fanum") {
        BrainrotCharacter::Fanum
    } else {
        BrainrotCharacter::Skibidi
    }
}

/// The `:game/brainrot-evolution` vector of the map a source holds.
pub open spec fn evolution_table_spec(s: Seq<char>) -> Result<Seq<EdnView>, BrainrotError> {
    match vector_table_spec(s, "game/brainrot-evolution"@) {
        Err(TableError::NotAMap) => Err(BrainrotError::NotAMap),
        Err(TableError::Missing) => Err(BrainrotError::NoTable),
        Ok(items) => Ok(items),
    }
}

/// Reads the `:game/brainrot-evolution` table (one element per chain) of an EDN source.
pub fn evolution_table(src: &str) -> (r: Result<Vec<EdnValue>, BrainrotError>)
    ensures
        match r {
            Ok(items) => evolution_table_spec(src@) == Ok::<Seq<EdnView>, BrainrotError>(
                views(items@),
            ),
            Err(e) => evolution_table_spec(src@) == Err::<Seq<EdnView>, BrainrotError>(e),
        },
{
    match vector_table(src, "game/brainrot-evolution") {
        Ok(items) => Ok(items),
        Err(TableError::NotAMap) => Err(BrainrotError::NotAMap),
        Err(TableError::Missing) => Err(BrainrotError::NoTable),
    }
}

/// A stage index field: an integer clamped to `0..=255`; missing or not an integer reads as 0.
pub open spec fn stage_field(v: Option<EdnView>) -> u8 {
    match v {
        Some(EdnView::Int(i)) => if i < 0 {
            0
        } else if i > 255 {
            255
        } else {
            i as u8
        },
        _ => 0,
    }
}

/// Reads a stage index field (see [`stage_field`]).
pub fn stage_of(v: Option<&EdnValue>) -> (r: u8)
    ensures
        r == stage_field(opt_view(v)),
{
    match v {
        Some(x) => match x.as_integer() {
            Some(i) => if i < 0 {
                0
            } else if i > 255 {
                255
            } else {
                i as u8
            },
            None => 0,
        },
        None => 0,
    }
}

/// One evolution stage as read from its map; the scale is kept as the number it was
/// written as.
#[derive(Debug, Clone, PartialEq)]
pub struct StageFields {
    /// Stage index (0 = base form).
    pub stage: u8,
    /// Form name (e.g. `"Skibidi Tank"`).
    pub form_name: String,
    /// Social gate; `""` when none.
    pub social_gate: String,
    /// Domain achievement gate; `""` when none.
    pub domain_gate: String,
    /// Mesh scale at this stage.
    pub scale: NumField,
    /// Body-build appearance override, if any.
    pub body_override: Option<String>,
    /// Accessory appearance override, if any.
    pub accessory_override: Option<String>,
}

/// One evolution chain as read from its map.
#[derive(Debug, Clone, PartialEq)]
pub struct ChainFields {
    /// Stable character id (e.g. `"char-skibidi-commander"`).
    pub character_id: String,
    /// Hyphenated character keyword id (e.g. `"skibidi"`).
    pub character: String,
    /// Ordered evolution stages.
    pub stages: Vec<StageFields>,
}

/// Mathematical value of a [`StageFields`].
pub struct StageFieldsView {
    pub stage: u8,
    pub form_name: Seq<char>,
    pub social_gate: Seq<char>,
    pub domain_gate: Seq<char>,
    pub scale: NumFieldView,
    pub body_override: Option<Seq<char>>,
    pub accessory_override: Option<Seq<char>>,
}

/// Mathematical value of a [`ChainFields`].
pub struct ChainFieldsView {
    pub character_id: Seq<char>,
    pub character: Seq<char>,
    pub stages: Seq<StageFieldsView>,
}

/// The value of an optional string.
pub open spec fn opt_string_view(o: Option<String>) -> Option<Seq<char>> {
    match o {
        Some(t) => Some(t@),
        None => None,
    }
}

impl View for StageFields {
    type V = StageFieldsView;

    open spec fn view(&self) -> StageFieldsView {
        StageFieldsView {
            stage: self.stage,
            form_name: self.form_name@,
            social_gate: self.social_gate@,
            domain_gate: self.domain_gate@,
            scale: self.scale@,
            body_override: opt_string_view(self.body_override),
            accessory_override: opt_string_view(self.accessory_override),
        }
    }
}

/// Views of a sequence of stages.
pub open spec fn stage_views(v: Seq<StageFields>) -> Seq<StageFieldsView> {
    Seq::new(v.len(), |i: int| v[i]@)
}

impl View for ChainFields {
    type V = ChainFieldsView;

    open spec fn view(&self) -> ChainFieldsView {
        ChainFieldsView {
            character_id: self.character_id@,
            character: self.character@,
            stages: stage_views(self.stages@),
        }
    }
}

/// Views of a sequence of chains.
pub open spec fn chain_views(v: Seq<ChainFields>) -> Seq<ChainFieldsView> {
    Seq::new(v.len(), |i: int| v[i]@)
}

/// The stage a map of fields describes (missing fields read as `""`, `None`, 0 or absent).
pub open spec fn stage_fields_of(es: Seq<(EdnView, EdnView)>) -> StageFieldsView {
    StageFieldsView {
        stage: stage_field(lookup(es, "stage"@)),
        form_name: str_field(lookup(es, "form"@)),
        social_gate: str_field(lookup(es, "social-gate"@)),
        domain_gate: str_field(lookup(es, "domain-gate"@)),
        scale: num_field_of(lookup(es, "scale"@)),
        body_override: opt_str_field(lookup(es, "body"@)),
        accessory_override: opt_str_field(lookup(es, "accessory"@)),
    }
}

/// The stages a vector describes: one per element that is a map, in order.
pub open spec fn stages_of(items: Seq<EdnView>) -> Seq<StageFieldsView>
    decreases items.len(),
{
    if items.len() == 0 {
        Seq::empty()
    } else {
        let rest = stages_of(items.drop_last());
        match items.last() {
            EdnView::Mapping(es) => rest.push(stage_fields_of(es)),
            _ => rest,
        }
    }
}

/// The elements of a vector field; none when missing or not a vector.
pub open spec fn vector_field(v: Option<EdnView>) -> Seq<EdnView> {
    match v {
        Some(EdnView::Vector(xs)) => xs,
        _ => Seq::empty(),
    }
}

/// The chain a map of fields describes.
pub open spec fn chain_fields_of(es: Seq<(EdnView, EdnView)>) -> ChainFieldsView {
    ChainFieldsView {
        character_id: str_field(lookup(es, "character-id"@)),
        character: keyword_field(lookup(es, "character"@)),
        stages: stages_of(vector_field(lookup(es, "stages"@))),
    }
}

/// The chains a vector describes: one per element that is a map, in order.
pub open spec fn chains_of(items: Seq<EdnView>) -> Seq<ChainFieldsView>
    decreases items.len(),
{
    if items.len() == 0 {
        Seq::empty()
    } else {
        let rest = chains_of(items.drop_last());
        match items.last() {
            EdnView::Mapping(es) => rest.push(chain_fields_of(es)),
            _ => rest,
        }
    }
}

/// The chains a source describes: the `:game/brainrot-evolution` vector of its root map.
pub open spec fn chain_fields_spec(s: Seq<char>) -> Result<Seq<ChainFieldsView>, BrainrotError> {
    match evolution_table_spec(s) {
        Ok(items) => Ok(chains_of(items)),
        Err(e) => Err(e),
    }
}

/// Reads one stage's map (see [`stage_fields_of`]).
pub fn stage_fields_from_map(m: &[(EdnValue, EdnValue)]) -> (r: StageFields)
    ensures
        r@ == stage_fields_of(entry_views(m@)),
{
    StageFields {
        stage: stage_of(mget(m, "stage")),
        form_name: string_field(mget(m, "form")),
        social_gate: string_field(mget(m, "social-gate")),
        domain_gate: string_field(mget(m, "domain-gate")),
        scale: num_field(mget(m, "scale")),
        body_override: optional_string_field(mget(m, "body")),
        accessory_override: optional_string_field(mget(m, "accessory")),
    }
}

/// Reads the stages of a vector (see [`stages_of`]).
fn stages_from_items(items: &[EdnValue]) -> (r: Vec<StageFields>)
    ensures
        stage_views(r@) == stages_of(views(items@)),
{
    let ghost iv = views(items@);
    let mut out: Vec<StageFields> = Vec::new();
    let mut i: usize = 0;
    assert(iv.take(0) =~= Seq::<EdnView>::empty());
    assert(stage_views(out@) =~= Seq::<StageFieldsView>::empty());
    while i < items.len()
        invariant
            i <= items@.len(),
            iv == views(items@),
            stage_views(out@) == stages_of(iv.take(i as int)),
        decreases items@.len() - i,
    {
        assert(iv.take(i + 1).drop_last() =~= iv.take(i as int));
        assert(iv.take(i + 1).last() == items@[i as int]@);
        let ghost before = stage_views(out@);
        match items[i].as_map() {
            Some(m) => {
                let e = stage_fields_from_map(m);
                out.push(e);
                assert(stage_views(out@) =~= before.push(e@));
            },
            None => {},
        }
        i = i + 1;
    }
    assert(iv.take(items@.len() as int) =~= iv);
    out
}

/// Reads one chain's map (see [`chain_fields_of`]).
pub fn chain_fields_from_map(m: &[(EdnValue, EdnValue)]) -> (r: ChainFields)
    ensures
        r@ == chain_fields_of(entry_views(m@)),
{
    let stages = match mget(m, "stages") {
        Some(v) => match v.as_vector() {
            Some(xs) => stages_from_items(xs),
            None => Vec::new(),
        },
        None => Vec::new(),
    };
    proof {
        if !(lookup(entry_views(m@), "stages"@) matches Some(EdnView::Vector(_))) {
            assert(stage_views(stages@) =~= Seq::<StageFieldsView>::empty());
        }
    }
    ChainFields {
        character_id: string_field(mget(m, "character-id")),
        character: keyword_name_field(mget(m, "character")),
        stages,
    }
}

/// Parses the `:game/brainrot-evolution` table of an EDN source into ordered chains.
pub fn chain_fields_from_edn(src: &str) -> (r: Result<Vec<ChainFields>, BrainrotError>)
    ensures
        match r {
            Ok(v) => chain_fields_spec(src@) == Ok::<Seq<ChainFieldsView>, BrainrotError>(
                chain_views(v@),
            ),
            Err(e) => chain_fields_spec(src@) == Err::<Seq<ChainFieldsView>, BrainrotError>(e),
        },
{
    let items = evolution_table(src)?;
    let ghost iv = views(items@);
    let mut out: Vec<ChainFields> = Vec::new();
    let mut i: usize = 0;
    assert(iv.take(0) =~= Seq::<EdnView>::empty());
    assert(chain_views(out@) =~= Seq::<ChainFieldsView>::empty());
    while i < items.len()
        invariant
            i <= items@.len(),
            iv == views(items@),
            chain_views(out@) == chains_of(iv.take(i as int)),
        decreases items@.len() - i,
    {
        assert(iv.take(i + 1).drop_last() =~= iv.take(i as int));
        assert(iv.take(i + 1).last() == items@[i as int]@);
        let ghost before = chain_views(out@);
        match items[i].as_map() {
            Some(m) => {
                let e = chain_fields_from_map(m);
                out.push(e);
                assert(chain_views(out@) =~= before.push(e@));
            },
            None => {},
        }
        i = i + 1;
    }
    assert(iv.take(items@.len() as int) =~= iv);
    Ok(out)
}

/// Reading a character's id back gives the same character.
pub proof fn lemma_character_id_round_trip(c: BrainrotCharacter)
    ensures
        spec_character_from_id(spec_character_id(c)) == c,
{
    reveal_strlit("skibidi");
    reveal_strlit("sigma");
    reveal_strlit("ohio");
    reveal_strlit("grimace");
    reveal_strlit("rizz");
    reveal_strlit("fanum");
    // The ids differ in their first or second letter.
    assert("skibidi"@ != "sigma"@) by { assert("skibidi"@[1] != "sigma"@[1]); }
    assert("skibidi"@[0] != "ohio"@[0]);
    assert("skibidi"@[0] != "grimace"@[0]);
    assert("skibidi"@[0] != "rizz"@[0]);
    assert("skibidi"@[0] != "fanum"@[0]);
    assert("sigma"@[0] != "ohio"@[0]);
    assert("sigma"@[0] != "grimace"@[0]);
    assert("sigma"@[0] != "rizz"@[0]);
    assert("sigma"@[0] != "fanum"@[0]);
    assert("ohio"@[0] != "grimace"@[0]);
    assert("ohio"@[0] != "rizz"@[0]);
    assert("ohio"@[0] != "fanum"@[0]);
    assert("grimace"@[0] != "rizz"@[0]);
    assert("grimace"@[0] != "fanum"@[0]);
    assert("rizz"@[0] != "fanum"@[0]);
}

/// Every known id is the id of the character it names.
pub proof fn lemma_known_id_round_trip(id: Seq<char>)
    requires
        id == "skibidi"@ || id == "sigma"@ || id == "ohio"@ || id == "grimace"@ || id == "rizz"@
            || id == "fanum"@,
    ensures
        spec_character_id(spec_character_from_id(id)) == id,
{
    reveal_strlit("skibidi");
    reveal_strlit("sigma");
    reveal_strlit("ohio");
    reveal_strlit("grimace");
    reveal_strlit("rizz");
    reveal_strlit("fanum");
}

/// Each field of a stage comes from the stage-map key of the same name: `:stage` gives
/// its integer clamped to `0..=255` (else 0); `:form`, `:social-gate` and `:domain-gate`
/// give their string (else `""`); `:scale` gives its number as written, integer or
/// decimal (else absent); `:body` and `:accessory` give their string if they hold one.
pub proof fn lemma_stage_fields_keys(es: Seq<(EdnView, EdnView)>)
    ensures
        ({
            let r = stage_fields_of(es);
            &&& (match lookup(es, "stage"@) {
                Some(EdnView::Int(i)) => (i < 0 ==> r.stage == 0) && (0 <= i <= 255 ==> r.stage
                    == i) && (i > 255 ==> r.stage == 255),
                _ => r.stage == 0,
            })
            &&& (match lookup(es, "form"@) {
                Some(EdnView::Str(t)) => r.form_name == t,
                _ => r.form_name == Seq::<char>::empty(),
            })
            &&& (match lookup(es, "social-gate"@) {
                Some(EdnView::Str(t)) => r.social_gate == t,
                _ => r.social_gate == Seq::<char>::empty(),
            })
            &&& (match lookup(es, "domain-gate"@) {
                Some(EdnView::Str(t)) => r.domain_gate == t,
                _ => r.domain_gate == Seq::<char>::empty(),
            })
            &&& (match lookup(es, "scale"@) {
                Some(EdnView::Int(i)) => r.scale == NumFieldView::Int(i),
                Some(EdnView::Float(t)) => r.scale == NumFieldView::Decimal(t),
                _ => r.scale == NumFieldView::Absent,
            })
            &&& (match lookup(es, "body"@) {
                Some(EdnView::Str(t)) => r.body_override == Some(t),
                _ => r.body_override == None::<Seq<char>>,
            })
            &&& (match lookup(es, "accessory"@) {
                Some(EdnView::Str(t)) => r.accessory_override == Some(t),
                _ => r.accessory_override == None::<Seq<char>>,
            })
        }),
{
}

/// A chain's stages are read one per map of its `:stages` vector, in order.
pub proof fn lemma_stages_follow_maps(items: Seq<EdnView>)
    ensures
        stages_of(items) == maps_of(items).map_values(
            |es: Seq<(EdnView, EdnView)>| stage_fields_of(es),
        ),
    decreases items.len(),
{
    if items.len() > 0 {
        lemma_stages_follow_maps(items.drop_last());
        let f = |es: Seq<(EdnView, EdnView)>| stage_fields_of(es);
        let prev = maps_of(items.drop_last());
        match items.last() {
            EdnView::Mapping(es) => {
                assert(prev.push(es).map_values(f) =~= prev.map_values(f).push(f(es)));
            },
            _ => {},
        }
    } else {
        assert(maps_of(items).map_values(|es: Seq<(EdnView, EdnView)>| stage_fields_of(es))
            =~= Seq::<StageFieldsView>::empty());
    }
}

/// Each field of a chain comes from the chain-map key of the same name: `:character-id`
/// gives its string (else `""`), `:character` its keyword's name (else `""`), and
/// `:stages` its vector's elements (none when missing or not a vector), read as stages.
pub proof fn lemma_chain_fields_keys(es: Seq<(EdnView, EdnView)>)
    ensures
        ({
            let r = chain_fields_of(es);
            &&& (match lookup(es, "character-id"@) {
                Some(EdnView::Str(t)) => r.character_id == t,
                _ => r.character_id == Seq::<char>::empty(),
            })
            &&& (match lookup(es, "character"@) {
                Some(EdnView::Keyword(k)) => r.character == k,
                _ => r.character == Seq::<char>::empty(),
            })
            &&& (match lookup(es, "stages"@) {
                Some(EdnView::Vector(xs)) => r.stages == stages_of(xs),
                _ => r.stages == Seq::<StageFieldsView>::empty(),
            })
        }),
{
    assert(stages_of(Seq::<EdnView>::empty()) == Seq::<StageFieldsView>::empty());
}

/// The chains are read one per map of the table, in table order.
pub proof fn lemma_chains_follow_maps(items: Seq<EdnView>)
    ensures
        chains_of(items) == maps_of(items).map_values(
            |es: Seq<(EdnView, EdnView)>| chain_fields_of(es),
        ),
    decreases items.len(),
{
    if items.len() > 0 {
        lemma_chains_follow_maps(items.drop_last());
        let f = |es: Seq<(EdnView, EdnView)>| chain_fields_of(es);
        let prev = maps_of(items.drop_last());
        match items.last() {
            EdnView::Mapping(es) => {
                assert(prev.push(es).map_values(f) =~= prev.map_values(f).push(f(es)));
            },
            _ => {},
        }
    } else {
        assert(maps_of(items).map_values(|es: Seq<(EdnView, EdnView)>| chain_fields_of(es))
            =~= Seq::<ChainFieldsView>::empty());
    }
}

/// The chains of a source: an error when the source holds no map, another when its root
/// map has no `:game/brainrot-evolution` vector, and otherwise one chain per map of that
/// vector, in order.
pub proof fn lemma_chains_of_source(s: Seq<char>)
    ensures
        chain_fields_spec(s) == match root_map_spec(s) {
            None => Err(BrainrotError::NotAMap),
            Some(root) => match lookup(root, "game/brainrot-evolution"@) {
                Some(EdnView::Vector(items)) => Ok(
                    maps_of(items).map_values(|es: Seq<(EdnView, EdnView)>| chain_fields_of(es)),
                ),
                _ => Err(BrainrotError::NoTable),
            },
        },
{
    if let Some(root) = root_map_spec(s) {
        if let Some(EdnView::Vector(items)) = lookup(root, "game/brainrot-evolution"@) {
            lemma_chains_follow_maps(items);
        }
    }
}

} // verus!
