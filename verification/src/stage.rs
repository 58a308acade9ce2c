//! The names of the stages.

use vstd::prelude::*;

verus! {

/// The name of the stage with the given id, for the ids that are stages.
pub open spec fn stage_name(stage: u16) -> Option<Seq<char>> {
    if stage == 2 {
        Some("FOUNTAIN_OF_DREAMS"@)
    } else if stage == 3 {
        Some("POKEMON_STADIUM"@)
    } else if stage == 4 {
        Some("PRINCESS_PEACHS_CASTLE"@)
    } else if stage == 5 {
        Some("KONGO_JUNGLE"@)
    } else if stage == 6 {
        Some("BRINSTAR"@)
    } else if stage == 7 {
        Some("CORNERIA"@)
    } else if stage == 8 {
        Some("YOSHIS_STORY"@)
    } else if stage == 9 {
        Some("ONETT"@)
    } else if stage == 10 {
        Some("MUTE_CITY"@)
    } else if stage == 11 {
        Some("RAINBOW_CRUISE"@)
    } else if stage == 12 {
        Some("JUNGLE_JAPES"@)
    } else if stage == 13 {
        Some("GREAT_BAY"@)
    } else if stage == 14 {
        Some("HYRULE_TEMPLE"@)
    } else if stage == 15 {
        Some("BRINSTAR_DEPTHS"@)
    } else if stage == 16 {
        Some("YOSHIS_ISLAND"@)
    } else if stage == 17 {
        Some("GREEN_GREENS"@)
    } else if stage == 18 {
        Some("FOURSIDE"@)
    } else if stage == 19 {
        Some("MUSHROOM_KINGDOM_I"@)
    } else if stage == 20 {
        Some("MUSHROOM_KINGDOM_II"@)
    } else if stage == 22 {
        Some("VENOM"@)
    } else if stage == 23 {
        Some("POKE_FLOATS"@)
    } else if stage == 24 {
        Some("BIG_BLUE"@)
    } else if stage == 25 {
        Some("ICICLE_MOUNTAIN"@)
    } else if stage == 26 {
        Some("ICETOP"@)
    } else if stage == 27 {
        Some("FLAT_ZONE"@)
    } else if stage == 28 {
        Some("DREAM_LAND_N64"@)
    } else if stage == 29 {
        Some("YOSHIS_ISLAND_N64"@)
    } else if stage == 30 {
        Some("KONGO_JUNGLE_N64"@)
    } else if stage == 31 {
        Some("BATTLEFIELD"@)
    } else if stage == 32 {
        Some("FINAL_DESTINATION"@)
    } else {
        None
    }
}

/// The name of a stage; `None` for an id that is no stage.
pub fn name(stage: u16) -> (found: Option<&'static str>)
    ensures
        match found {
            Some(n) => stage_name(stage) == Some(n@),
            None => stage_name(stage) is None,
        },
{
    match stage {
        2 => Some("FOUNTAIN_OF_DREAMS"),
        3 => Some("POKEMON_STADIUM"),
        4 => Some("PRINCESS_PEACHS_CASTLE"),
        5 => Some("KONGO_JUNGLE"),
        6 => Some("BRINSTAR"),
        7 => Some("CORNERIA"),
        8 => Some("YOSHIS_STORY"),
        9 => Some("ONETT"),
        10 => Some("MUTE_CITY"),
        11 => Some("RAINBOW_CRUISE"),
        12 => Some("JUNGLE_JAPES"),
        13 => Some("GREAT_BAY"),
        14 => Some("HYRULE_TEMPLE"),
        15 => Some("BRINSTAR_DEPTHS"),
        16 => Some("YOSHIS_ISLAND"),
        17 => Some("GREEN_GREENS"),
        18 => Some("FOURSIDE"),
        19 => Some("MUSHROOM_KINGDOM_I"),
        20 => Some("MUSHROOM_KINGDOM_II"),
        22 => Some("VENOM"),
        23 => Some("POKE_FLOATS"),
        24 => Some("BIG_BLUE"),
        25 => Some("ICICLE_MOUNTAIN"),
        26 => Some("ICETOP"),
        27 => Some("FLAT_ZONE"),
        28 => Some("DREAM_LAND_N64"),
        29 => Some("YOSHIS_ISLAND_N64"),
        30 => Some("KONGO_JUNGLE_N64"),
        31 => Some("BATTLEFIELD"),
        32 => Some("FINAL_DESTINATION"),
        _ => None,
    }
}

} // verus!
