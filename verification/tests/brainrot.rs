use kami_data::brainrot::{character_from_id, character_id, BrainrotCharacter};

#[test]
fn character_id_round_trips() {
    for c in [
        BrainrotCharacter::Skibidi,
        BrainrotCharacter::Sigma,
        BrainrotCharacter::Ohio,
        BrainrotCharacter::Grimace,
        BrainrotCharacter::Rizz,
        BrainrotCharacter::Fanum,
    ] {
        assert_eq!(character_from_id(character_id(c)), c);
    }
}

#[test]
fn character_ids_are_hyphenated_names() {
    assert_eq!(character_id(BrainrotCharacter::Grimace), "grimace");
    assert_eq!(character_id(BrainrotCharacter::Fanum), "fanum");
}

#[test]
fn unknown_character_id_falls_back_to_skibidi() {
    assert_eq!(character_from_id("nobody"), BrainrotCharacter::Skibidi);
    assert_eq!(character_from_id(""), BrainrotCharacter::Skibidi);
    assert_eq!(character_from_id("Sigma"), BrainrotCharacter::Skibidi);
    assert_eq!(character_from_id("ohio"), BrainrotCharacter::Ohio);
}

use kami_data::brainrot::{evolution_table, stage_of, BrainrotError};
use kami_data::edn::EdnValue;

#[test]
fn brainrot_non_map_root_is_an_error() {
    assert!(matches!(evolution_table("42"), Err(BrainrotError::NotAMap)));
}

#[test]
fn brainrot_missing_table_is_an_error() {
    assert!(matches!(evolution_table("{:x 1}"), Err(BrainrotError::NoTable)));
}

#[test]
fn brainrot_table_lists_chains() {
    let t = evolution_table("{:game/brainrot-evolution [{:character :sigma} {:character :ohio}]}").unwrap();
    assert_eq!(t.len(), 2);
}

#[test]
fn stage_index_is_clamped() {
    assert_eq!(stage_of(Some(&EdnValue::Int(3))), 3);
    assert_eq!(stage_of(Some(&EdnValue::Int(-1))), 0);
    assert_eq!(stage_of(Some(&EdnValue::Int(999))), 255);
    assert_eq!(stage_of(Some(&EdnValue::Nil)), 0);
    assert_eq!(stage_of(None), 0);
}

use kami_data::brainrot::{chain_fields_from_edn, ChainFields, StageFields};
use kami_data::edn::NumField;

#[test]
fn chain_fields_from_sample() {
    let src = r#"{:game/brainrot-evolution
      [{:character-id "char-skibidi" :character :skibidi
        :stages [{:stage 0 :form "Skibidi" :scale 1}
                 7
                 {:stage 300 :form "Skibidi Tank" :social-gate "elder" :scale 1.5
                  :body "tank" :accessory "crown"}]}
       "stray"
       {:character :sigma}]}"#;
    let chains = chain_fields_from_edn(src).unwrap();
    assert_eq!(chains.len(), 2);
    assert_eq!(chains[0].character_id, "char-skibidi");
    assert_eq!(chains[0].character, "skibidi");
    assert_eq!(chains[0].stages.len(), 2, "non-map stages are skipped");
    assert_eq!(chains[0].stages[0].scale, NumField::Int(1));
    assert_eq!(
        chains[0].stages[1],
        StageFields {
            stage: 255,
            form_name: "Skibidi Tank".to_string(),
            social_gate: "elder".to_string(),
            domain_gate: String::new(),
            scale: NumField::Decimal("1.5".to_string()),
            body_override: Some("tank".to_string()),
            accessory_override: Some("crown".to_string()),
        }
    );
    assert_eq!(
        chains[1],
        ChainFields { character_id: String::new(), character: "sigma".to_string(), stages: vec![] }
    );
    assert!(matches!(chain_fields_from_edn("42"), Err(BrainrotError::NotAMap)));
}
