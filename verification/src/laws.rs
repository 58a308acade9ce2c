//! What holds of every match that the rules decide.

use crate::players::{
    alive, lemma_absent_team, lemma_living, lemma_verdict_slot, living, on_team, rival, same_team,
    settled, singles_pick, survivors, team_damage, team_of, team_stocks, third_team, unteamed,
    verdict, InvalidState, Player, Verdict,
};
use crate::replay::{roster, seat, Replay};
use vstd::prelude::*;

verus! {

/// Exactly the players at `x` and `y` are alive, and `x` stands before `y`.
pub open spec fn duel(ps: Seq<Player>, x: int, y: int) -> bool {
    &&& 0 <= x < y < ps.len()
    &&& alive(ps[x])
    &&& alive(ps[y])
    &&& forall|j: int| 0 <= j < ps.len() && j != x && j != y ==> !alive(#[trigger] ps[j])
}

/// The two players of a duel belong to two different teams.
pub open spec fn opposed(ps: Seq<Player>, x: int, y: int) -> bool {
    &&& team_of(ps[x]) is Some
    &&& team_of(ps[y]) is Some
    &&& team_of(ps[x]) != team_of(ps[y])
}

/// The side that wins with the player at `w`: that player alone, or in a
/// team match that player's team.
pub open spec fn side_of(ps: Seq<Player>, w: int, is_teams: bool) -> Verdict {
    if is_teams {
        Verdict::Team(team_of(ps[w]).unwrap())
    } else {
        Verdict::Slot(w)
    }
}

/// No player flagged as a winner yet.
pub open spec fn unflagged(ps: Seq<Player>) -> bool {
    forall|j: int| 0 <= j < ps.len() ==> !(#[trigger] ps[j]).winner
}

/// Where nobody is alive among the first `n`, no index is listed as living.
pub proof fn lemma_none_living(ps: Seq<Player>, n: int)
    requires
        0 <= n <= ps.len(),
        forall|j: int| 0 <= j < n ==> !alive(#[trigger] ps[j]),
    ensures
        living(ps, n).len() == 0,
    decreases n,
{
    if n > 0 {
        lemma_none_living(ps, n - 1);
    }
}

/// In a duel the survivors are the two duellists, in their order.
pub proof fn lemma_duel_survivors(ps: Seq<Player>, x: int, y: int)
    requires
        ps.len() <= usize::MAX,
        duel(ps, x, y),
    ensures
        survivors(ps).len() == 2,
        survivors(ps)[0] == x,
        survivors(ps)[1] == y,
{
    let l = survivors(ps);
    lemma_living(ps, ps.len() as int);
    assert(l.contains(x as usize));
    assert(l.contains(y as usize));
    let kx = choose|k: int| 0 <= k < l.len() && l[k] == x as usize;
    let ky = choose|k: int| 0 <= k < l.len() && l[k] == y as usize;
    assert(kx != ky);
    if l.len() > 2 {
        assert(l[0] < l[1] && l[1] < l[2]);
        assert(alive(ps[l[0] as int]) && alive(ps[l[1] as int]) && alive(ps[l[2] as int]));
    }
    assert(l[0] < l[1]);
    assert(alive(ps[l[0] as int]) && alive(ps[l[1] as int]));
}

/// The totals of a team with one living member among the first `n` are that
/// member's stocks and damage.
pub proof fn lemma_lone_member(ps: Seq<Player>, t: Seq<char>, m: int, n: int)
    requires
        0 <= m < n <= ps.len(),
        on_team(ps[m], t),
        forall|j: int| 0 <= j < n && j != m ==> !on_team(#[trigger] ps[j], t),
    ensures
        team_stocks(ps, t, n) == ps[m].stocks,
        team_damage(ps, t, n) == ps[m].damage,
    decreases n,
{
    if n - 1 == m {
        lemma_absent_team(ps, t, m);
    } else {
        lemma_lone_member(ps, t, m, n - 1);
    }
}

/// What `rival` finds: a living player off team `a` before whom every living
/// player is on it; or nothing, where every living player is on it.
pub proof fn lemma_rival(ps: Seq<Player>, a: Seq<char>, n: int)
    requires
        0 <= n <= ps.len(),
    ensures
        match rival(ps, a, n) {
            Some(r) => 0 <= r < n && alive(ps[r]) && team_of(ps[r]) != Some(a) && forall|j: int|
                0 <= j < r && alive(#[trigger] ps[j]) ==> team_of(ps[j]) == Some(a),
            None => forall|j: int| 0 <= j < n && alive(#[trigger] ps[j]) ==> team_of(ps[j]) == Some(a),
        },
    decreases n,
{
    if n > 0 {
        lemma_rival(ps, a, n - 1);
    }
}

/// In a duel the tie-break between the two decides: in a team match between
/// players of two different teams, for the winner's team.
pub proof fn lemma_duel_verdict(ps: Seq<Player>, x: int, y: int, is_teams: bool)
    requires
        ps.len() <= usize::MAX,
        duel(ps, x, y),
        is_teams ==> opposed(ps, x, y),
    ensures
        verdict(ps, is_teams) == side_of(ps, singles_pick(ps, x, y), is_teams),
{
    lemma_duel_survivors(ps, x, y);
    if is_teams {
        let n = ps.len() as int;
        let a = team_of(ps[x]).unwrap();
        let b = team_of(ps[y]).unwrap();
        lemma_rival(ps, a, n);
        lemma_lone_member(ps, a, x, n);
        lemma_lone_member(ps, b, y, n);
        assert(rival(ps, a, n) == Some(y));
        assert(!unteamed(ps));
        assert(!third_team(ps, a, b));
    }
}

/// With no team match on, and nobody flagged before, a decided match flags
/// exactly one player, a living one, unless the first survivor has a team and
/// is alone or alive with teammates only: then that team is flagged.
/// Undecided is only the match that nobody survived.
pub proof fn law_one_winner(ps: Seq<Player>)
    requires
        ps.len() <= usize::MAX,
        unflagged(ps),
    ensures
        match verdict(ps, false) {
            Verdict::Slot(i) => 0 <= i < ps.len() && alive(ps[i]) && forall|j: int|
                0 <= j < ps.len() ==> (#[trigger] settled(ps, verdict(ps, false))[j]).winner == (j
                    == i),
            Verdict::Team(t) => {
                let l = survivors(ps);
                &&& l.len() == 1 || (l.len() > 2 && same_team(ps, l))
                &&& team_of(ps[l[0] as int]) == Some(t)
            },
            Verdict::Invalid(e) => e == InvalidState::NoSurvivor && survivors(ps).len() == 0,
        },
{
    lemma_verdict_slot(ps, false);
}

/// Where a team wins, every player with that team's label is flagged, and,
/// of those not flagged before, nobody else.
pub proof fn law_team_consistency(ps: Seq<Player>, is_teams: bool, t: Seq<char>)
    requires
        verdict(ps, is_teams) == Verdict::Team(t),
    ensures
        settled(ps, verdict(ps, is_teams)).len() == ps.len(),
        forall|j: int|
            0 <= j < ps.len() && team_of(ps[j]) == Some(t) ==> (#[trigger] settled(
                ps,
                verdict(ps, is_teams),
            )[j]).winner,
        forall|j: int|
            0 <= j < ps.len() && team_of(ps[j]) != Some(t) && !ps[j].winner ==> !(#[trigger] settled(
                ps,
                verdict(ps, is_teams),
            )[j]).winner,
{
}

/// Of two survivors with unequal stocks the one with more wins, whatever the
/// damage.
pub proof fn law_stock_dominance(ps: Seq<Player>, x: int, y: int, is_teams: bool)
    requires
        ps.len() <= usize::MAX,
        duel(ps, x, y),
        is_teams ==> opposed(ps, x, y),
        ps[x].stocks != ps[y].stocks,
    ensures
        verdict(ps, is_teams) == side_of(
            ps,
            if ps[x].stocks > ps[y].stocks {
                x
            } else {
                y
            },
            is_teams,
        ),
{
    lemma_duel_verdict(ps, x, y, is_teams);
}

/// Of two survivors with equal stocks and unequal damage the one with less
/// damage wins.
pub proof fn law_lower_damage_wins(ps: Seq<Player>, x: int, y: int, is_teams: bool)
    requires
        ps.len() <= usize::MAX,
        duel(ps, x, y),
        is_teams ==> opposed(ps, x, y),
        ps[x].stocks == ps[y].stocks,
        ps[x].damage != ps[y].damage,
    ensures
        verdict(ps, is_teams) == side_of(
            ps,
            if ps[x].damage < ps[y].damage {
                x
            } else {
                y
            },
            is_teams,
        ),
{
    lemma_duel_verdict(ps, x, y, is_teams);
}

/// Of two survivors level on stocks and damage the one that stands first in
/// the list wins.
pub proof fn law_full_tie_goes_to_first(ps: Seq<Player>, x: int, y: int, is_teams: bool)
    requires
        ps.len() <= usize::MAX,
        duel(ps, x, y),
        is_teams ==> opposed(ps, x, y),
        ps[x].stocks == ps[y].stocks,
        ps[x].damage == ps[y].damage,
    ensures
        verdict(ps, is_teams) == side_of(ps, x, is_teams),
{
    lemma_duel_verdict(ps, x, y, is_teams);
}

/// Where no player has a stock left the match is undecided, and settling it
/// changes nothing.
pub proof fn law_no_survivor(ps: Seq<Player>, is_teams: bool)
    requires
        forall|j: int| 0 <= j < ps.len() ==> (#[trigger] ps[j]).stocks == 0,
    ensures
        verdict(ps, is_teams) == Verdict::Invalid(InvalidState::NoSurvivor),
        settled(ps, verdict(ps, is_teams)) == ps,
{
    lemma_none_living(ps, ps.len() as int);
    assert(settled(ps, verdict(ps, is_teams)) =~= ps);
}

/// Two player lists that differ in nothing but the winner flags.
pub open spec fn same_match(ps: Seq<Player>, qs: Seq<Player>) -> bool {
    &&& ps.len() == qs.len()
    &&& forall|j: int|
        0 <= j < ps.len() ==> (#[trigger] qs[j]) == (Player { winner: qs[j].winner, ..ps[j] })
}

/// What the rules add up and look for is the same in two lists that differ
/// in the winner flags only.
pub proof fn lemma_same_match(ps: Seq<Player>, qs: Seq<Player>, t: Seq<char>, n: int)
    requires
        same_match(ps, qs),
        0 <= n <= ps.len(),
    ensures
        living(ps, n) == living(qs, n),
        team_stocks(ps, t, n) == team_stocks(qs, t, n),
        team_damage(ps, t, n) == team_damage(qs, t, n),
        rival(ps, t, n) == rival(qs, t, n),
    decreases n,
{
    if n > 0 {
        lemma_same_match(ps, qs, t, n - 1);
        assert(qs[n - 1].stocks == ps[n - 1].stocks);
    }
}

/// The verdict does not depend on the winner flags.
pub proof fn law_verdict_ignores_flags(ps: Seq<Player>, qs: Seq<Player>, is_teams: bool)
    requires
        ps.len() <= usize::MAX,
        same_match(ps, qs),
    ensures
        verdict(ps, is_teams) == verdict(qs, is_teams),
{
    let n = ps.len() as int;
    let l = survivors(ps);
    lemma_living(ps, n);
    lemma_same_match(ps, qs, Seq::empty(), n);
    assert forall|j: int| 0 <= j < n implies alive(#[trigger] qs[j]) == alive(ps[j]) && team_of(
        qs[j],
    ) == team_of(ps[j]) by {
        assert(qs[j] == Player { winner: qs[j].winner, ..ps[j] });
    }
    if l.len() > 0 {
        assert(0 <= l[0] < n);
        if same_team(ps, l) {
            assert forall|k: int| 0 <= k < l.len() implies team_of(qs[#[trigger] l[k] as int])
                == team_of(qs[l[0] as int]) by {
                assert(alive(qs[l[k] as int]) == alive(ps[l[k] as int]));
            }
        }
        if same_team(qs, l) {
            assert forall|k: int| 0 <= k < l.len() implies team_of(ps[#[trigger] l[k] as int])
                == team_of(ps[l[0] as int]) by {
                assert(alive(qs[l[k] as int]) == alive(ps[l[k] as int]));
            }
        }
        assert(same_team(ps, l) == same_team(qs, l));
        if l.len() > 1 {
            assert(0 <= l[1] < n);
            assert(alive(qs[l[1] as int]) == alive(ps[l[1] as int]));
        }
        assert(alive(qs[l[0] as int]) == alive(ps[l[0] as int]));
        if is_teams {
            if unteamed(ps) {
                let j = choose|j: int|
                    0 <= j < ps.len() && alive(#[trigger] ps[j]) && team_of(ps[j]) is None;
                assert(alive(qs[j]));
            }
            if unteamed(qs) {
                let j = choose|j: int|
                    0 <= j < qs.len() && alive(#[trigger] qs[j]) && team_of(qs[j]) is None;
                assert(alive(ps[j]));
            }
            if !unteamed(ps) {
                let a = team_of(ps[l[0] as int]).unwrap();
                lemma_same_match(ps, qs, a, n);
                lemma_rival(ps, a, n);
                if rival(ps, a, n) is Some {
                    let r = rival(ps, a, n).unwrap();
                    assert(alive(qs[r]) == alive(ps[r]));
                    let b = team_of(ps[r]).unwrap();
                    lemma_same_match(ps, qs, b, n);
                    if third_team(ps, a, b) {
                        let j = choose|j: int|
                            0 <= j < ps.len() && alive(#[trigger] ps[j]) && team_of(ps[j]) != Some(
                                a,
                            ) && team_of(ps[j]) != Some(b);
                        assert(alive(qs[j]));
                    }
                    if third_team(qs, a, b) {
                        let j = choose|j: int|
                            0 <= j < qs.len() && alive(#[trigger] qs[j]) && team_of(qs[j]) != Some(
                                a,
                            ) && team_of(qs[j]) != Some(b);
                        assert(alive(ps[j]));
                    }
                }
            }
        }
    }
}

/// Deciding a match a second time finds the same verdict and changes
/// nothing more.
pub proof fn law_second_pass_changes_nothing(ps: Seq<Player>, is_teams: bool)
    requires
        ps.len() <= usize::MAX,
    ensures
        verdict(settled(ps, verdict(ps, is_teams)), is_teams) == verdict(ps, is_teams),
        settled(settled(ps, verdict(ps, is_teams)), verdict(ps, is_teams)) == settled(
            ps,
            verdict(ps, is_teams),
        ),
{
    let v = verdict(ps, is_teams);
    let qs = settled(ps, v);
    assert(same_match(ps, qs));
    law_verdict_ignores_flags(ps, qs, is_teams);
    assert(settled(qs, v) =~= qs);
}

/// The players of a replay stand by ascending slot, each in a slot below
/// `n`, and none is a winner yet.
pub proof fn law_roster_ascends(r: Replay, n: int)
    requires
        0 <= n,
    ensures
        roster(r, n).len() <= n,
        forall|k: int|
            0 <= k < roster(r, n).len() ==> 0 <= (#[trigger] roster(r, n)[k]).port < n && !roster(
                r,
                n,
            )[k].winner && seat(r, roster(r, n)[k].port) == Some(roster(r, n)[k]),
        forall|k1: int, k2: int|
            0 <= k1 < k2 < roster(r, n).len() ==> (#[trigger] roster(r, n)[k1]).port
                < (#[trigger] roster(r, n)[k2]).port,
        forall|p: int| 0 <= p < n && seat(r, p) is Some ==> roster(r, n).contains(#[trigger] seat(r, p).unwrap()),
    decreases n,
{
    if n > 0 {
        law_roster_ascends(r, n - 1);
        let prev = roster(r, n - 1);
        if seat(r, n - 1) is Some {
            let cur = roster(r, n);
            let s = seat(r, n - 1).unwrap();
            assert(cur[prev.len() as int] == s);
            assert forall|p: int| 0 <= p < n && seat(r, p) is Some implies cur.contains(
                #[trigger] seat(r, p).unwrap(),
            ) by {
                if p < n - 1 {
                    let k = choose|k: int| 0 <= k < prev.len() && prev[k] == seat(r, p).unwrap();
                    assert(cur[k] == seat(r, p).unwrap());
                } else {
                    assert(cur[prev.len() as int] == seat(r, p).unwrap());
                }
            }
        }
    }
}

} // verus!
