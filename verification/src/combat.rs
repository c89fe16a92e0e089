use vstd::prelude::*;
use crate::text::{contains_str, has_substring};

verus! {

/// Armor points the plugin estimates for an armor piece by its registry key: the
/// material gives 4 (netherite, diamond), 3 (iron), 2 (chainmail, golden), 1 (leather)
/// or 0, doubled for a chestplate.
pub open spec fn armor_value(id: Seq<char>) -> u32 {
    let material: u32 = if has_substring(id, "netherite"@) || has_substring(id, "diamond"@) {
        4
    } else if has_substring(id, "iron"@) {
        3
    } else if has_substring(id, "chainmail"@) || has_substring(id, "golden"@) {
        2
    } else if has_substring(id, "leather"@) {
        1
    } else {
        0
    };
    if has_substring(id, "chestplate"@) {
        (material * 2) as u32
    } else {
        material
    }
}

/// The armor points of the piece with registry key `id`.
pub fn armor_points(id: &str) -> (r: u32)
    ensures
        r == armor_value(id@),
        r <= 8,
{
    let material: u32 = if contains_str(id, "netherite") || contains_str(id, "diamond") {
        4
    } else if contains_str(id, "iron") {
        3
    } else if contains_str(id, "chainmail") || contains_str(id, "golden") {
        2
    } else if contains_str(id, "leather") {
        1
    } else {
        0
    };
    let slot: u32 = if contains_str(id, "chestplate") {
        2
    } else {
        1
    };
    material * slot
}

pub open spec fn piece_value(piece: Option<String>) -> u32 {
    match piece {
        Some(id) => armor_value(id@),
        None => 0,
    }
}

fn piece_points(piece: &Option<String>) -> (r: u32)
    ensures
        r == piece_value(*piece),
        r <= 8,
{
    match piece {
        Some(id) => armor_points(id.as_str()),
        None => 0,
    }
}

/// The armor a player wears, estimated from the registry keys of the four armor slots
/// (empty slots count nothing).
pub fn estimate_player_armor(
    helmet: &Option<String>,
    chestplate: &Option<String>,
    leggings: &Option<String>,
    boots: &Option<String>,
) -> (r: u32)
    ensures
        r == piece_value(*helmet) + piece_value(*chestplate) + piece_value(*leggings)
            + piece_value(*boots),
        r <= 32,
{
    piece_points(helmet) + piece_points(chestplate) + piece_points(leggings) + piece_points(boots)
}

} // verus!
