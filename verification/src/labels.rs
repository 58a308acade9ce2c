//! The fixed tables that give a team colour and a character their labels.

use vstd::prelude::*;

verus! {

/// The label of a team colour, for the colours that the game has.
pub open spec fn team_label(color: u8) -> Option<Seq<char>> {
    if color == 0 {
        Some("RED"@)
    } else if color == 1 {
        Some("BLUE"@)
    } else if color == 2 {
        Some("GREEN"@)
    } else {
        None
    }
}

/// The label of a team colour; `None` for a value that is no colour.
pub fn team(color: u8) -> (label: Option<String>)
    ensures
        match label {
            Some(l) => team_label(color) == Some(l@),
            None => team_label(color) is None,
        },
{
    let name: &str = match color {
        0 => "RED",
        1 => "BLUE",
        2 => "GREEN",
        _ => {
            return None;
        },
    };
    Some(name.to_owned())
}

/// The label of a character id, for the characters that can be played.
pub open spec fn character_label(id: u8) -> Option<Seq<char>> {
    if id == 0 {
        Some("CAPTAIN_FALCON"@)
    } else if id == 1 {
        Some("DONKEY_KONG"@)
    } else if id == 2 {
        Some("FOX"@)
    } else if id == 3 {
        Some("GAME_AND_WATCH"@)
    } else if id == 4 {
        Some("KIRBY"@)
    } else if id == 5 {
        Some("BOWSER"@)
    } else if id == 6 {
        Some("LINK"@)
    } else if id == 7 {
        Some("LUIGI"@)
    } else if id == 8 {
        Some("MARIO"@)
    } else if id == 9 {
        Some("MARTH"@)
    } else if id == 10 {
        Some("MEWTWO"@)
    } else if id == 11 {
        Some("NESS"@)
    } else if id == 12 {
        Some("PEACH"@)
    } else if id == 13 {
        Some("PIKACHU"@)
    } else if id == 14 {
        Some("ICE_CLIMBERS"@)
    } else if id == 15 {
        Some("JIGGLYPUFF"@)
    } else if id == 16 {
        Some("SAMUS"@)
    } else if id == 17 {
        Some("YOSHI"@)
    } else if id == 18 {
        Some("ZELDA"@)
    } else if id == 19 {
        Some("SHEIK"@)
    } else if id == 20 {
        Some("FALCO"@)
    } else if id == 21 {
        Some("YOUNG_LINK"@)
    } else if id == 22 {
        Some("DR_MARIO"@)
    } else if id == 23 {
        Some("ROY"@)
    } else if id == 24 {
        Some("PICHU"@)
    } else if id == 25 {
        Some("GANONDORF"@)
    } else {
        None
    }
}

/// The label of a character id; `None` for an id that no playable character has.
pub fn character(id: u8) -> (label: Option<String>)
    ensures
        match label {
            Some(l) => character_label(id) == Some(l@),
            None => character_label(id) is None,
        },
{
    let name: &str = match id {
        0 => "CAPTAIN_FALCON",
        1 => "DONKEY_KONG",
        2 => "FOX",
        3 => "GAME_AND_WATCH",
        4 => "KIRBY",
        5 => "BOWSER",
        6 => "LINK",
        7 => "LUIGI",
        8 => "MARIO",
        9 => "MARTH",
        10 => "MEWTWO",
        11 => "NESS",
        12 => "PEACH",
        13 => "PIKACHU",
        14 => "ICE_CLIMBERS",
        15 => "JIGGLYPUFF",
        16 => "SAMUS",
        17 => "YOSHI",
        18 => "ZELDA",
        19 => "SHEIK",
        20 => "FALCO",
        21 => "YOUNG_LINK",
        22 => "DR_MARIO",
        23 => "ROY",
        24 => "PICHU",
        25 => "GANONDORF",
        _ => {
            return None;
        },
    };
    Some(name.to_owned())
}

} // verus!
