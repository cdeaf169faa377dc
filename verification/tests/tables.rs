use kami_data::npc_tuning::{npc_table, NpcError};
use kami_data::edn::mget;
use kami_data::waves::{wave_entry_maps, wave_table, WaveError};

#[test]
fn npc_non_map_root_is_an_error() {
    assert!(matches!(npc_table("42", "npc/skibidi"), Err(NpcError::NotAMap)));
}

#[test]
fn npc_missing_table_is_an_error() {
    assert!(matches!(npc_table("{:x 1}", "npc/skibidi"), Err(NpcError::NoTable(_))));
    assert_eq!(npc_table("{:x 1}", "npc/sigma"), Err(NpcError::NoTable("npc/sigma")));
}

#[test]
fn npc_table_reads_the_tuning_map() {
    let m = npc_table("{:npc/skibidi {:rise-dur 3.0}}", "npc/skibidi").unwrap();
    assert_eq!(m.len(), 1);
}

#[test]
fn waves_non_map_root_is_an_error() {
    assert!(matches!(wave_table("42"), Err(WaveError::NotAMap)));
}

#[test]
fn waves_missing_table_is_an_error() {
    assert!(matches!(wave_table("{:x 1}"), Err(WaveError::NoTable)));
}

#[test]
fn wave_entry_maps_keep_maps_in_order() {
    let src = "{:terrain/waves [{:speed 1} 7 {:speed 2 :amplitude 3} \"x\"]}";
    let maps = wave_entry_maps(src).unwrap();
    assert_eq!(maps.len(), 2);
    assert_eq!(mget(&maps[0], "speed").and_then(|v| v.as_integer()), Some(1));
    assert_eq!(mget(&maps[1], "speed").and_then(|v| v.as_integer()), Some(2));
    assert_eq!(mget(&maps[1], "amplitude").and_then(|v| v.as_integer()), Some(3));
}

#[test]
fn wave_entry_maps_errors() {
    assert!(matches!(wave_entry_maps("[1 2]"), Err(WaveError::NotAMap)));
    assert!(matches!(wave_entry_maps("{:terrain/waves 3}"), Err(WaveError::NoTable)));
    assert_eq!(wave_entry_maps("{:terrain/waves []}").unwrap().len(), 0);
}
