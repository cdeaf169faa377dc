use kami_data::catalog::{genre_from_id, genre_id, spec_to_game_def, GameDef, GameDefSpec, Genre};

#[test]
fn genre_id_round_trips() {
    for g in [
        Genre::IoMultiplayer,
        Genre::Puzzle,
        Genre::Rpg,
        Genre::Simulation,
        Genre::VisualNovel,
        Genre::Card,
        Genre::Arcade,
        Genre::Adult,
        Genre::Brainrot,
        Genre::Chase,
    ] {
        assert_eq!(genre_id(&genre_from_id(genre_id(&g))), genre_id(&g));
    }
}

#[test]
fn unknown_genre_falls_back_to_io_multiplayer() {
    assert_eq!(genre_from_id("shooter"), Genre::IoMultiplayer);
    assert_eq!(genre_from_id("visual-novel"), Genre::VisualNovel);
}

#[test]
fn game_def_round_trips_through_spec() {
    let g = GameDef {
        slug: "agar".to_string(),
        title: "Agar".to_string(),
        genre: Genre::IoMultiplayer,
        max_players: 64,
        description: "Eat or be eaten.".to_string(),
    };
    let s = GameDefSpec::from_game_def(&g);
    assert_eq!(s.genre, "io-multiplayer");
    assert_eq!(s.max_players, 64);
    let back = spec_to_game_def(&s);
    assert_eq!(back.slug, g.slug);
    assert_eq!(back.title, g.title);
    assert_eq!(back.genre, g.genre);
    assert_eq!(back.max_players, 64);
    assert_eq!(back.description, g.description);
    assert_eq!(GameDefSpec::from_game_def(&back), s);
}

#[test]
fn spec_with_unknown_genre_does_not_round_trip() {
    let s = GameDefSpec {
        slug: "x".to_string(),
        title: "X".to_string(),
        genre: "nonsense".to_string(),
        max_players: 1,
        description: String::new(),
    };
    let g = spec_to_game_def(&s);
    assert_eq!(g.genre, Genre::IoMultiplayer);
    assert_eq!(GameDefSpec::from_game_def(&g).genre, "io-multiplayer");
}

use kami_data::catalog::{catalog_from_edn, catalog_specs_from_edn, CatalogError};

#[test]
fn catalog_non_map_root_is_an_error() {
    assert!(matches!(catalog_specs_from_edn("42"), Err(CatalogError::NotAMap)));
}

#[test]
fn catalog_missing_table_is_an_error() {
    assert!(matches!(catalog_specs_from_edn("{:other 1}"), Err(CatalogError::NoCatalog)));
}

const SAMPLE: &str = r#"
;; two games and one stray value
{:game/catalog
 [{:slug "agar" :title "Agar" :genre :io-multiplayer :max-players 64
   :description "Eat or be eaten."}
  42
  {:slug "sudoku" :title "Sudoku" :genre :puzzle :max-players -3}]}
"#;

#[test]
fn catalog_specs_from_sample() {
    let specs = catalog_specs_from_edn(SAMPLE).unwrap();
    assert_eq!(specs.len(), 2, "non-map elements are skipped");
    assert_eq!(
        specs[0],
        GameDefSpec {
            slug: "agar".to_string(),
            title: "Agar".to_string(),
            genre: "io-multiplayer".to_string(),
            max_players: 64,
            description: "Eat or be eaten.".to_string(),
        }
    );
    assert_eq!(specs[1].genre, "puzzle");
    assert_eq!(specs[1].max_players, 0, "negative counts read as 0");
    assert_eq!(specs[1].description, "", "missing fields read as empty");
}

#[test]
fn catalog_from_sample() {
    let games = catalog_from_edn(SAMPLE).unwrap();
    assert_eq!(games.len(), 2);
    assert_eq!(games[0].genre, Genre::IoMultiplayer);
    assert_eq!(games[1].genre, Genre::Puzzle);
    assert_eq!(games[1].slug, "sudoku");
    assert!(matches!(catalog_from_edn("{:game/catalog 1}"), Err(CatalogError::NoCatalog)));
}

#[test]
fn catalog_large_player_count_keeps_low_bits() {
    let specs = catalog_specs_from_edn("{:game/catalog [{:max-players 4294967297}]}").unwrap();
    assert_eq!(specs[0].max_players, 1);
}

#[test]
fn spec_round_trips_through_game_def() {
    let specs = catalog_specs_from_edn(SAMPLE).unwrap();
    for spec in &specs {
        let g = spec_to_game_def(spec);
        assert_eq!(GameDefSpec::from_game_def(&g), *spec);
    }
}
