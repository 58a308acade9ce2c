//! The players of one match as they stood on its last frame, and the rules
//! that decide which of them won.

pub use crate::replay::player_states;
use vstd::prelude::*;

verus! {

/// One competitor as the last frame of the match left them.
#[derive(Debug, Clone, PartialEq, Eq)]
pub struct Player {
    /// Connect code of the competitor.
    pub code: String,
    /// Display tag of the competitor.
    pub tag: String,
    /// Slot the competitor played in.
    pub port: usize,
    /// Lives left; zero means eliminated.
    pub stocks: u8,
    /// Character label, if the character is a known one.
    pub character: Option<String>,
    /// Team label, present in team modes only.
    pub team: Option<String>,
    /// Accumulated damage in thousandths of a percent.
    pub damage: u32,
    /// Set by [`determine_winners`] on every winner; never cleared by it.
    pub winner: bool,
}

/// Why no winner can be named.
#[derive(Debug, Clone, Copy, PartialEq, Eq, Structural)]
pub enum InvalidState {
    /// No player has a stock left.
    NoSurvivor,
    /// A team match in which a surviving player belongs to no team.
    NoTeam,
    /// A team match in which more than two teams survive.
    CrowdedField,
}

/// What is wrong with a match in the given state, in words.
pub open spec fn reason(e: InvalidState) -> Seq<char> {
    match e {
        InvalidState::NoSurvivor => "no player has a stock left"@,
        InvalidState::NoTeam => "a surviving player has no team"@,
        InvalidState::CrowdedField => "more than two teams survive"@,
    }
}

impl InvalidState {
    /// What is wrong, in words.
    pub fn message(&self) -> (text: String)
        ensures
            text@ == reason(*self),
    {
        match self {
            InvalidState::NoSurvivor => "no player has a stock left".to_owned(),
            InvalidState::NoTeam => "a surviving player has no team".to_owned(),
            InvalidState::CrowdedField => "more than two teams survive".to_owned(),
        }
    }
}

/// The winning side of a match.
#[derive(Debug, Clone, PartialEq, Eq)]
pub enum Decision {
    /// The player at this index of the player list, and nobody else.
    Slot(usize),
    /// Every player who carries this team label.
    Team(String),
}

/// What the rules say of a player list: the winning side, or why there is none.
pub ghost enum Verdict {
    Invalid(InvalidState),
    Slot(int),
    Team(Seq<char>),
}

/// The verdict that a computed decision stands for.
pub open spec fn decided(r: Result<Decision, InvalidState>) -> Verdict {
    match r {
        Ok(Decision::Slot(i)) => Verdict::Slot(i as int),
        Ok(Decision::Team(t)) => Verdict::Team(t@),
        Err(e) => Verdict::Invalid(e),
    }
}

/// A player as plain mathematical values.
pub ghost struct Standing {
    pub code: Seq<char>,
    pub tag: Seq<char>,
    pub port: int,
    pub stocks: int,
    pub character: Option<Seq<char>>,
    pub team: Option<Seq<char>>,
    pub damage: int,
    pub winner: bool,
}

impl View for Player {
    type V = Standing;

    open spec fn view(&self) -> Standing {
        Standing {
            code: self.code@,
            tag: self.tag@,
            port: self.port as int,
            stocks: self.stocks as int,
            character: match self.character {
                Some(c) => Some(c@),
                None => None,
            },
            team: team_of(*self),
            damage: self.damage as int,
            winner: self.winner,
        }
    }
}

/// The team label of a player as a sequence of characters.
pub open spec fn team_of(p: Player) -> Option<Seq<char>> {
    match p.team {
        Some(t) => Some(t@),
        None => None,
    }
}

/// `p` with the winner flag raised where `crown` holds, and otherwise as it was.
pub open spec fn flagged(p: Player, crown: bool) -> Player {
    Player { winner: p.winner || crown, ..p }
}

/// Make everyone on `team_color` a winner.
pub fn set_team_winners(team_color: &str, players: &mut Vec<Player>)
    ensures
        final(players)@.len() == old(players)@.len(),
        forall|j: int|
            0 <= j < old(players)@.len() ==> #[trigger] final(players)@[j] == flagged(
                old(players)@[j],
                team_of(old(players)@[j]) == Some(team_color@),
            ),
{
    let n: usize = players.len();
    let color: String = team_color.to_owned();
    let mut j: usize = 0;
    while j < n
        invariant
            j <= n,
            color@ == team_color@,
            players@.len() == n,
            old(players)@.len() == n,
            forall|k: int|
                0 <= k < j ==> #[trigger] players@[k] == flagged(
                    old(players)@[k],
                    team_of(old(players)@[k]) == Some(team_color@),
                ),
            forall|k: int| j <= k < n ==> #[trigger] players@[k] == old(players)@[k],
        decreases n - j,
    {
        let on_team: bool = match &players[j].team {
            Some(t) => *t == color,
            None => false,
        };
        if on_team {
            players[j].winner = true;
        }
        j += 1;
    }
}


/// A player who still has a stock.
pub open spec fn alive(p: Player) -> bool {
    p.stocks > 0
}

/// The indices below `n` of the players who are alive, in ascending order.
pub open spec fn living(ps: Seq<Player>, n: int) -> Seq<usize>
    decreases n,
{
    if n <= 0 {
        Seq::empty()
    } else if alive(ps[n - 1]) {
        living(ps, n - 1).push((n - 1) as usize)
    } else {
        living(ps, n - 1)
    }
}

/// The indices of all players who are alive, in ascending order.
pub open spec fn survivors(ps: Seq<Player>) -> Seq<usize> {
    living(ps, ps.len() as int)
}

/// All of the players at the indices `l` carry one and the same team label.
pub open spec fn same_team(ps: Seq<Player>, l: Seq<usize>) -> bool {
    &&& l.len() > 0
    &&& team_of(ps[l[0] as int]) is Some
    &&& forall|k: int|
        0 <= k < l.len() ==> team_of(ps[#[trigger] l[k] as int]) == team_of(ps[l[0] as int])
}

/// A living player of team `t`.
pub open spec fn on_team(p: Player, t: Seq<char>) -> bool {
    alive(p) && team_of(p) == Some(t)
}

/// The stocks that the living players of team `t` among the first `n` hold together.
pub open spec fn team_stocks(ps: Seq<Player>, t: Seq<char>, n: int) -> int
    decreases n,
{
    if n <= 0 {
        0
    } else {
        team_stocks(ps, t, n - 1) + if on_team(ps[n - 1], t) {
            ps[n - 1].stocks as int
        } else {
            0
        }
    }
}

/// The damage that the living players of team `t` among the first `n` carry together.
pub open spec fn team_damage(ps: Seq<Player>, t: Seq<char>, n: int) -> int
    decreases n,
{
    if n <= 0 {
        0
    } else {
        team_damage(ps, t, n - 1) + if on_team(ps[n - 1], t) {
            ps[n - 1].damage as int
        } else {
            0
        }
    }
}

/// The lowest index below `n` of a living player who is not on team `a`.
pub open spec fn rival(ps: Seq<Player>, a: Seq<char>, n: int) -> Option<int>
    decreases n,
{
    if n <= 0 {
        None
    } else {
        match rival(ps, a, n - 1) {
            Some(r) => Some(r),
            None => if alive(ps[n - 1]) && team_of(ps[n - 1]) != Some(a) {
                Some(n - 1)
            } else {
                None
            },
        }
    }
}

/// Some living player belongs to no team.
pub open spec fn unteamed(ps: Seq<Player>) -> bool {
    exists|j: int| 0 <= j < ps.len() && alive(#[trigger] ps[j]) && team_of(ps[j]) is None
}

/// Some living player is on neither team `a` nor team `b`.
pub open spec fn third_team(ps: Seq<Player>, a: Seq<char>, b: Seq<char>) -> bool {
    exists|j: int|
        0 <= j < ps.len() && alive(#[trigger] ps[j]) && team_of(ps[j]) != Some(a) && team_of(
            ps[j],
        ) != Some(b)
}

/// Which of two team totals wins: more stocks; on equal stocks less damage;
/// on equal stocks and damage the first.
pub open spec fn first_prevails(s1: int, d1: int, s2: int, d2: int) -> bool {
    s1 > s2 || (s1 == s2 && d1 <= d2)
}

/// The tie-break of a team match among the living players, where `first` is
/// the index of a living player. The team of `first` meets the one other
/// team that is alive. A living player without a team, or a third living
/// team, leaves the match undecided.
pub open spec fn doubles_verdict(ps: Seq<Player>, first: int) -> Verdict {
    let n = ps.len() as int;
    if unteamed(ps) {
        Verdict::Invalid(InvalidState::NoTeam)
    } else {
        let a = team_of(ps[first]).unwrap();
        match rival(ps, a, n) {
            None => Verdict::Team(a),
            Some(r) => {
                let b = team_of(ps[r]).unwrap();
                if third_team(ps, a, b) {
                    Verdict::Invalid(InvalidState::CrowdedField)
                } else if first_prevails(
                    team_stocks(ps, a, n),
                    team_damage(ps, a, n),
                    team_stocks(ps, b, n),
                    team_damage(ps, b, n),
                ) {
                    Verdict::Team(a)
                } else {
                    Verdict::Team(b)
                }
            },
        }
    }
}

/// The tie-break between the players at `x` and `y`: more stocks; on equal
/// stocks less damage; on equal stocks and damage `x`.
pub open spec fn singles_pick(ps: Seq<Player>, x: int, y: int) -> int {
    if first_prevails(
        ps[x].stocks as int,
        ps[x].damage as int,
        ps[y].stocks as int,
        ps[y].damage as int,
    ) {
        x
    } else {
        y
    }
}

/// The outcome of a match, from the players as its last frame left them.
pub open spec fn verdict(ps: Seq<Player>, is_teams: bool) -> Verdict {
    let l = survivors(ps);
    if l.len() == 0 {
        Verdict::Invalid(InvalidState::NoSurvivor)
    } else if l.len() == 1 || (l.len() > 2 && same_team(ps, l)) {
        match team_of(ps[l[0] as int]) {
            Some(t) => Verdict::Team(t),
            None => Verdict::Slot(l[0] as int),
        }
    } else if is_teams {
        doubles_verdict(ps, l[0] as int)
    } else {
        Verdict::Slot(singles_pick(ps, l[0] as int, l[1] as int))
    }
}

/// Whether the verdict `v` makes the player at index `j` a winner.
pub open spec fn crowned(ps: Seq<Player>, v: Verdict, j: int) -> bool {
    match v {
        Verdict::Invalid(_) => false,
        Verdict::Slot(i) => j == i,
        Verdict::Team(t) => team_of(ps[j]) == Some(t),
    }
}

/// The player list after the verdict `v`: the winners flagged, all else as it was.
pub open spec fn settled(ps: Seq<Player>, v: Verdict) -> Seq<Player> {
    Seq::new(ps.len(), |j: int| flagged(ps[j], crowned(ps, v, j)))
}

/// What `living` holds: exactly the living players below `n`, each once, in
/// ascending order.
pub proof fn lemma_living(ps: Seq<Player>, n: int)
    requires
        0 <= n <= ps.len() <= usize::MAX,
    ensures
        living(ps, n).len() <= n,
        forall|k: int|
            0 <= k < living(ps, n).len() ==> 0 <= #[trigger] living(ps, n)[k] < n && alive(
                ps[living(ps, n)[k] as int],
            ),
        forall|j: int|
            0 <= j < n && alive(#[trigger] ps[j]) ==> living(ps, n).contains(j as usize),
        forall|k1: int, k2: int|
            0 <= k1 < k2 < living(ps, n).len() ==> #[trigger] living(ps, n)[k1]
                < #[trigger] living(ps, n)[k2],
    decreases n,
{
    if n > 0 {
        lemma_living(ps, n - 1);
        let prev = living(ps, n - 1);
        if alive(ps[n - 1]) {
            let cur = prev.push((n - 1) as usize);
            assert(cur[prev.len() as int] == (n - 1) as usize);
            assert forall|j: int| 0 <= j < n && alive(#[trigger] ps[j]) implies cur.contains(
                j as usize,
            ) by {
                if j < n - 1 {
                    let k = choose|k: int| 0 <= k < prev.len() && prev[k] == j as usize;
                    assert(cur[k] == j as usize);
                } else {
                    assert(cur[prev.len() as int] == j as usize);
                }
            }
        }
    }
}

/// A team of which no player among the first `n` is alive has no stocks and no damage.
pub proof fn lemma_absent_team(ps: Seq<Player>, t: Seq<char>, n: int)
    requires
        0 <= n <= ps.len(),
        forall|j: int| 0 <= j < n ==> !on_team(#[trigger] ps[j], t),
    ensures
        team_stocks(ps, t, n) == 0,
        team_damage(ps, t, n) == 0,
    decreases n,
{
    if n > 0 {
        lemma_absent_team(ps, t, n - 1);
    }
}

/// The indices of the players with a stock left, in ascending order.
pub fn living_slots(players: &Vec<Player>) -> (l: Vec<usize>)
    ensures
        l@ == survivors(players@),
{
    let n: usize = players.len();
    let mut l: Vec<usize> = Vec::new();
    let mut i: usize = 0;
    while i < n
        invariant
            i <= n,
            n == players@.len(),
            l@ == living(players@, i as int),
        decreases n - i,
    {
        if players[i].stocks > 0 {
            l.push(i);
        }
        i += 1;
    }
    l
}

/// Checks if the players at the indices `living` are all on the same team.
pub fn on_same_team(players: &Vec<Player>, living: &Vec<usize>) -> (same: bool)
    requires
        forall|k: int| 0 <= k < living@.len() ==> #[trigger] living@[k] < players@.len(),
    ensures
        same == same_team(players@, living@),
{
    if living.len() == 0 {
        return false;
    }
    let first: usize = living[0];
    match &players[first].team {
        None => false,
        Some(a) => {
            let mut k: usize = 0;
            while k < living.len()
                invariant
                    k <= living@.len(),
                    first == living@[0],
                    first < players@.len(),
                    team_of(players@[first as int]) == Some(a@),
                    forall|m: int| 0 <= m < living@.len() ==> #[trigger] living@[m] < players@.len(),
                    forall|m: int|
                        0 <= m < k ==> team_of(players@[#[trigger] living@[m] as int]) == Some(
                            a@,
                        ),
                decreases living@.len() - k,
            {
                let here: bool = match &players[living[k]].team {
                    Some(t) => *t == *a,
                    None => false,
                };
                if !here {
                    return false;
                }
                k += 1;
            }
            true
        },
    }
}

/// The totals of one team over its living players.
#[derive(Debug)]
pub struct Tiebreak {
    /// Stocks of the team's living players, added up.
    pub stocks: u128,
    /// Damage of the team's living players, added up.
    pub damage: u128,
    /// The team's label.
    pub color: String,
}

impl Tiebreak {
    /// Whether these totals win against `other`.
    pub fn prevails(&self, other: &Tiebreak) -> (yes: bool)
        ensures
            yes == first_prevails(
                self.stocks as int,
                self.damage as int,
                other.stocks as int,
                other.damage as int,
            ),
    {
        self.stocks > other.stocks || (self.stocks == other.stocks && self.damage
            <= other.damage)
    }

    /// The winning team of a team match that the shortcuts did not settle.
    /// `first` is the index of a living player; that player's team comes first
    /// where the totals are level.
    pub fn doubles(players: &Vec<Player>, first: usize) -> (res: Result<String, InvalidState>)
        requires
            first < players@.len(),
            alive(players@[first as int]),
        ensures
            doubles_verdict(players@, first as int) == match res {
                Ok(color) => Verdict::Team(color@),
                Err(e) => Verdict::Invalid(e),
            },
    {
        let n: usize = players.len();
        let mut ours = match &players[first].team {
            Some(a) => Tiebreak { stocks: 0, damage: 0, color: a.clone() },
            None => {
                return Err(InvalidState::NoTeam);
            },
        };
        let mut theirs: Option<Tiebreak> = None;
        let mut crowded: bool = false;
        let ghost ps = players@;
        let ghost a = ours.color@;
        let mut i: usize = 0;
        while i < n
            invariant
                i <= n,
                n == players@.len(),
                ps == players@,
                a == ours.color@,
                team_of(ps[first as int]) == Some(a),
                forall|j: int| 0 <= j < i && alive(#[trigger] ps[j]) ==> team_of(ps[j]) is Some,
                ours.stocks == team_stocks(ps, a, i as int),
                ours.damage == team_damage(ps, a, i as int),
                ours.stocks <= 255 * i,
                ours.damage <= 0xFFFF_FFFF * i,
                theirs is None <==> rival(ps, a, i as int) is None,
                theirs is None ==> !crowded && forall|j: int|
                    0 <= j < i && alive(#[trigger] ps[j]) ==> team_of(ps[j]) == Some(a),
                theirs matches Some(t) ==> {
                    &&& rival(ps, a, i as int) matches Some(r)
                    &&& 0 <= r < i
                    &&& team_of(ps[r]) == Some(t.color@)
                    &&& t.color@ != a
                    &&& t.stocks == team_stocks(ps, t.color@, i as int)
                    &&& t.damage == team_damage(ps, t.color@, i as int)
                    &&& t.stocks <= 255 * i
                    &&& t.damage <= 0xFFFF_FFFF * i
                    &&& crowded ==> exists|j: int|
                        0 <= j < i && alive(#[trigger] ps[j]) && team_of(ps[j]) != Some(a)
                            && team_of(ps[j]) != Some(t.color@)
                    &&& !crowded ==> forall|j: int|
                        0 <= j < i && alive(#[trigger] ps[j]) ==> team_of(ps[j]) == Some(a)
                            || team_of(ps[j]) == Some(t.color@)
                },
            decreases n - i,
        {
            let p = &players[i];
            if p.stocks > 0 {
                match &p.team {
                    None => {
                        return Err(InvalidState::NoTeam);
                    },
                    Some(label) => {
                        if *label == ours.color {
                            ours.stocks = ours.stocks + p.stocks as u128;
                            ours.damage = ours.damage + p.damage as u128;
                        } else {
                            match theirs {
                                None => {
                                    proof {
                                        lemma_absent_team(ps, label@, i as int);
                                    }
                                    theirs = Some(
                                        Tiebreak {
                                            stocks: p.stocks as u128,
                                            damage: p.damage as u128,
                                            color: label.clone(),
                                        },
                                    );
                                },
                                Some(t) => {
                                    if *label == t.color {
                                        theirs = Some(
                                            Tiebreak {
                                                stocks: t.stocks + p.stocks as u128,
                                                damage: t.damage + p.damage as u128,
                                                color: t.color,
                                            },
                                        );
                                    } else {
                                        crowded = true;
                                        theirs = Some(t);
                                    }
                                },
                            }
                        }
                    },
                }
            }
            i += 1;
        }
        match theirs {
            None => Ok(ours.color),
            Some(t) => {
                if crowded {
                    Err(InvalidState::CrowdedField)
                } else if ours.prevails(&t) {
                    Ok(ours.color)
                } else {
                    Ok(t.color)
                }
            },
        }
    }

    /// The winner between the players at `x` and `y`, where `x` comes first
    /// in the player list.
    pub fn singles(players: &Vec<Player>, x: usize, y: usize) -> (w: usize)
        requires
            x < players@.len(),
            y < players@.len(),
        ensures
            w == singles_pick(players@, x as int, y as int),
    {
        if players[x].stocks > players[y].stocks {
            x
        } else if players[x].stocks < players[y].stocks {
            y
        } else if players[x].damage > players[y].damage {
            y
        } else {
            x
        }
    }
}

/// Names the winning side of a match without touching the players.
pub fn decide(players: &Vec<Player>, is_teams: bool) -> (res: Result<Decision, InvalidState>)
    ensures
        decided(res) == verdict(players@, is_teams),
{
    let living = living_slots(players);
    proof {
        vstd::std_specs::vec::axiom_spec_len(players);
        lemma_living(players@, players@.len() as int);
    }
    if living.len() == 0 {
        return Err(InvalidState::NoSurvivor);
    }
    let first: usize = living[0];
    if living.len() == 1 || (living.len() > 2 && on_same_team(players, &living)) {
        match &players[first].team {
            Some(t) => Ok(Decision::Team(t.clone())),
            None => Ok(Decision::Slot(first)),
        }
    } else if is_teams {
        match Tiebreak::doubles(players, first) {
            Ok(color) => Ok(Decision::Team(color)),
            Err(e) => Err(e),
        }
    } else {
        Ok(Decision::Slot(Tiebreak::singles(players, first, living[1])))
    }
}

/// Decides the match and raises the winner flag of every winner.
///
/// 1. Players without a stock are out of the running.
/// 2. One survivor, or more than two who share a team: the first survivor
///    wins, with everyone on that player's team.
/// 3. Otherwise stocks decide, then damage: between the two teams in a team
///    match, between the first two survivors in any other.
///
/// On an error nothing is changed.
pub fn determine_winners(players: &mut Vec<Player>, is_teams: bool) -> (res: Result<
    (),
    InvalidState,
>)
    ensures
        final(players)@ == settled(old(players)@, verdict(old(players)@, is_teams)),
        match verdict(old(players)@, is_teams) {
            Verdict::Invalid(e) => res == Err::<(), InvalidState>(e) && final(players)@ == old(
                players,
            )@,
            _ => res is Ok,
        },
{
    let ghost before = players@;
    let ghost v = verdict(before, is_teams);
    let decision = decide(players, is_teams);
    match decision {
        Err(e) => {
            assert(players@ =~= settled(before, v));
            Err(e)
        },
        Ok(Decision::Slot(i)) => {
            proof {
                vstd::std_specs::vec::axiom_spec_len(players);
                lemma_verdict_slot(before, is_teams);
            }
            players[i].winner = true;
            assert(players@ =~= settled(before, v));
            Ok(())
        },
        Ok(Decision::Team(color)) => {
            set_team_winners(color.as_str(), players);
            assert(players@ =~= settled(before, v));
            Ok(())
        },
    }
}

/// A verdict for a single player names a living player of the list.
pub proof fn lemma_verdict_slot(ps: Seq<Player>, is_teams: bool)
    requires
        ps.len() <= usize::MAX,
    ensures
        verdict(ps, is_teams) matches Verdict::Slot(i) ==> 0 <= i < ps.len() && alive(ps[i]),
{
    lemma_living(ps, ps.len() as int);
}

} // verus!
