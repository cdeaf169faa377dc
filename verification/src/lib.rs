//! Data-tier tables, NPC decision logic and a PMX mesh reader.

mod text;

pub mod brainrot;
pub mod catalog;
pub mod edn;
pub mod npc;
pub mod npc_tuning;
pub mod pmx;
pub mod waves;
