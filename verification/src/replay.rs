//! A decoded replay as plain values, and the players that it shows.

use crate::labels::{character_label, team_label};
use crate::players::{Player, Standing};
use vstd::prelude::*;

verus! {

/// How many slots a match has.
pub const SLOTS: usize = 4;

/// The state of a player after a frame.
#[derive(Debug, Clone, Copy, PartialEq, Eq)]
pub struct Post {
    /// Lives left.
    pub stocks: u8,
    /// Accumulated damage in thousandths of a percent.
    pub damage: u32,
}

/// What the start of the match records of a slot.
#[derive(Debug, Clone, Copy, PartialEq, Eq)]
pub struct Entrant {
    /// Team colour, in team modes.
    pub team: Option<u8>,
    /// Character id.
    pub character: u8,
}

/// A node of the free-form metadata of a replay.
#[derive(Debug, PartialEq, Eq)]
pub enum Meta {
    /// A string.
    Text(String),
    /// A mapping from keys to nodes; a lookup takes the first entry of a key.
    Table(Vec<(String, Meta)>),
    /// Anything else.
    Other,
}

/// A decoded replay, as far as the outcome of the match depends on it.
#[derive(Debug, PartialEq, Eq)]
pub struct Replay {
    /// By slot: the state after the last frame, where the slot has frames.
    pub frames: Vec<Option<Post>>,
    /// By slot: the record of the start of the match, where the slot is taken.
    pub entrants: Vec<Option<Entrant>>,
    /// The entries of the metadata at its top level.
    pub metadata: Vec<(String, Meta)>,
}

/// The node of the first entry at or after index `i` whose key is `key`.
pub open spec fn lookup_from(entries: Seq<(String, Meta)>, key: Seq<char>, i: int) -> Option<Meta>
    decreases entries.len() - i,
{
    if i < 0 || i >= entries.len() {
        None
    } else if entries[i].0@ == key {
        Some(entries[i].1)
    } else {
        lookup_from(entries, key, i + 1)
    }
}

/// The node that a mapping holds under `key`.
pub open spec fn lookup(entries: Seq<(String, Meta)>, key: Seq<char>) -> Option<Meta> {
    lookup_from(entries, key, 0)
}

/// The mapping that a mapping holds under `key`.
pub open spec fn table_at(entries: Seq<(String, Meta)>, key: Seq<char>) -> Option<
    Seq<(String, Meta)>,
> {
    match lookup(entries, key) {
        Some(Meta::Table(t)) => Some(t@),
        _ => None,
    }
}

/// The string that a mapping holds under `key`.
pub open spec fn text_at(entries: Seq<(String, Meta)>, key: Seq<char>) -> Option<Seq<char>> {
    match lookup(entries, key) {
        Some(Meta::Text(s)) => Some(s@),
        _ => None,
    }
}

/// The key of a slot in the metadata: its index in decimal.
pub open spec fn port_key(port: int) -> Seq<char> {
    if port == 0 {
        "0"@
    } else if port == 1 {
        "1"@
    } else if port == 2 {
        "2"@
    } else {
        "3"@
    }
}

/// The mapping of names of a slot: the metadata's `players`, there the slot,
/// there `names`, each of them a mapping.
pub open spec fn names_of(metadata: Seq<(String, Meta)>, port: int) -> Option<
    Seq<(String, Meta)>,
> {
    match table_at(metadata, "players"@) {
        None => None,
        Some(players) => match table_at(players, port_key(port)) {
            None => None,
            Some(slot) => table_at(slot, "names"@),
        },
    }
}

/// The state after the last frame of a slot.
pub open spec fn last_post(r: Replay, port: int) -> Option<Post> {
    if 0 <= port < r.frames@.len() {
        r.frames@[port]
    } else {
        None
    }
}

/// The start-of-match record of a slot.
pub open spec fn entrant(r: Replay, port: int) -> Option<Entrant> {
    if 0 <= port < r.entrants@.len() {
        r.entrants@[port]
    } else {
        None
    }
}

/// The team label of a slot.
pub open spec fn team_at(r: Replay, port: int) -> Option<Seq<char>> {
    match entrant(r, port) {
        Some(e) => match e.team {
            Some(color) => team_label(color),
            None => None,
        },
        None => None,
    }
}

/// The character label of a slot.
pub open spec fn character_at(r: Replay, port: int) -> Option<Seq<char>> {
    match entrant(r, port) {
        Some(e) => character_label(e.character),
        None => None,
    }
}

/// The player that a slot shows: none without a last frame, without the
/// mapping of names, or without a string for the code and for the tag.
pub open spec fn seat(r: Replay, port: int) -> Option<Standing> {
    match last_post(r, port) {
        None => None,
        Some(post) => match names_of(r.metadata@, port) {
            None => None,
            Some(names) => match (text_at(names, "code"@), text_at(names, "netplay"@)) {
                (Some(code), Some(tag)) => Some(
                    Standing {
                        code,
                        tag,
                        port,
                        stocks: post.stocks as int,
                        character: character_at(r, port),
                        team: team_at(r, port),
                        damage: post.damage as int,
                        winner: false,
                    },
                ),
                _ => None,
            },
        },
    }
}

/// The players that the slots below `n` show, by ascending slot.
pub open spec fn roster(r: Replay, n: int) -> Seq<Standing>
    decreases n,
{
    if n <= 0 {
        Seq::empty()
    } else {
        match seat(r, n - 1) {
            Some(s) => roster(r, n - 1).push(s),
            None => roster(r, n - 1),
        }
    }
}

/// The node that a mapping holds under `key`.
pub fn find<'a>(entries: &'a Vec<(String, Meta)>, key: &str) -> (found: Option<&'a Meta>)
    ensures
        match found {
            Some(m) => lookup(entries@, key@) == Some(*m),
            None => lookup(entries@, key@) is None,
        },
{
    let wanted: String = key.to_owned();
    let mut i: usize = 0;
    while i < entries.len()
        invariant
            i <= entries@.len(),
            wanted@ == key@,
            lookup(entries@, key@) == lookup_from(entries@, key@, i as int),
        decreases entries@.len() - i,
    {
        if entries[i].0 == wanted {
            return Some(&entries[i].1);
        }
        i += 1;
    }
    None
}

/// The mapping that a mapping holds under `key`.
pub fn find_table<'a>(entries: &'a Vec<(String, Meta)>, key: &str) -> (found: Option<
    &'a Vec<(String, Meta)>,
>)
    ensures
        match found {
            Some(t) => table_at(entries@, key@) == Some(t@),
            None => table_at(entries@, key@) is None,
        },
{
    match find(entries, key) {
        Some(Meta::Table(t)) => Some(t),
        _ => None,
    }
}

/// The key of a slot in the metadata.
pub fn slot_key(port: usize) -> (key: &'static str)
    requires
        port < SLOTS,
    ensures
        key@ == port_key(port as int),
{
    match port {
        0 => "0",
        1 => "1",
        2 => "2",
        _ => "3",
    }
}

/// Get the game state on the last frame.
pub fn last_frame(replay: &Replay, port: usize) -> (post: Option<Post>)
    ensures
        post == last_post(*replay, port as int),
{
    if port < replay.frames.len() {
        replay.frames[port]
    } else {
        None
    }
}

/// The mapping of names of a slot in the metadata.
pub fn tag_map(replay: &Replay, port: usize) -> (names: Option<&Vec<(String, Meta)>>)
    requires
        port < SLOTS,
    ensures
        match names {
            Some(t) => names_of(replay.metadata@, port as int) == Some(t@),
            None => names_of(replay.metadata@, port as int) is None,
        },
{
    match find_table(&replay.metadata, "players") {
        None => None,
        Some(players) => match find_table(players, slot_key(port)) {
            None => None,
            Some(slot) => find_table(slot, "names"),
        },
    }
}

/// The string that the mapping `tags` holds under `key`.
pub fn get_tag<'a>(key: &'a str, tags: &'a Vec<(String, Meta)>) -> (tag: Option<&'a String>)
    ensures
        match tag {
            Some(s) => text_at(tags@, key@) == Some(s@),
            None => text_at(tags@, key@) is None,
        },
{
    match find(tags, key) {
        Some(Meta::Text(s)) => Some(s),
        _ => None,
    }
}

/// The team label of a slot.
pub fn team(replay: &Replay, port: usize) -> (label: Option<String>)
    ensures
        match label {
            Some(l) => team_at(*replay, port as int) == Some(l@),
            None => team_at(*replay, port as int) is None,
        },
{
    if port < replay.entrants.len() {
        match replay.entrants[port] {
            Some(e) => match e.team {
                Some(color) => crate::labels::team(color),
                None => None,
            },
            None => None,
        }
    } else {
        None
    }
}

/// The character label of a slot.
pub fn character(replay: &Replay, port: usize) -> (label: Option<String>)
    ensures
        match label {
            Some(l) => character_at(*replay, port as int) == Some(l@),
            None => character_at(*replay, port as int) is None,
        },
{
    if port < replay.entrants.len() {
        match replay.entrants[port] {
            Some(e) => crate::labels::character(e.character),
            None => None,
        }
    } else {
        None
    }
}

/// Gets the state of all players on the last frame of the game: one player
/// for each slot that has a last frame, a code and a tag, by ascending slot,
/// none of them a winner yet.
pub fn player_states(replay: &Replay) -> (players: Vec<Player>)
    ensures
        players@.len() == roster(*replay, SLOTS as int).len(),
        forall|k: int| 0 <= k < players@.len() ==> (#[trigger] players@[k])@ == roster(*replay, SLOTS as int)[k],
{
    let mut players: Vec<Player> = Vec::new();
    let mut port: usize = 0;
    while port < SLOTS
        invariant
            port <= SLOTS,
            players@.len() == roster(*replay, port as int).len(),
            forall|k: int|
                0 <= k < players@.len() ==> (#[trigger] players@[k])@ == roster(
                    *replay,
                    port as int,
                )[k],
        decreases SLOTS - port,
    {
        if let Some(post) = last_frame(replay, port) {
            if let Some(tags) = tag_map(replay, port) {
                let code = get_tag("code", tags);
                let tag = get_tag("netplay", tags);
                if let (Some(code), Some(tag)) = (code, tag) {
                    players.push(
                        Player {
                            port,
                            stocks: post.stocks,
                            damage: post.damage,
                            code: code.clone(),
                            tag: tag.clone(),
                            team: team(replay, port),
                            character: character(replay, port),
                            winner: false,
                        },
                    );
                }
            }
        }
        port += 1;
    }
    players
}

} // verus!
