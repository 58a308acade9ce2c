use slp_outcome::players::{
    decide, determine_winners, living_slots, on_same_team, set_team_winners, Decision,
    InvalidState, Player, Tiebreak,
};

fn player(port: usize, stocks: u8, damage: u32, team: Option<&str>) -> Player {
    Player {
        code: format!("CODE#{}", port),
        tag: format!("tag{}", port),
        port,
        stocks,
        character: None,
        team: team.map(|t| t.to_string()),
        damage,
        winner: false,
    }
}

fn flags(players: &Vec<Player>) -> Vec<bool> {
    players.iter().map(|p| p.winner).collect()
}

#[test]
fn lone_survivor_wins_alone() {
    let mut players = vec![player(0, 1, 20_000, None), player(1, 0, 999_000, None)];
    let before = players.clone();
    assert_eq!(determine_winners(&mut players, false), Ok(()));
    assert_eq!(flags(&players), vec![true, false]);
    assert_eq!(players[1], before[1]);
    let mut expected = before[0].clone();
    expected.winner = true;
    assert_eq!(players[0], expected);
}

#[test]
fn more_stocks_win_in_singles() {
    let mut players =
        vec![player(0, 2, 50_000, Some("Red")), player(1, 3, 10_000, Some("Blue"))];
    assert_eq!(determine_winners(&mut players, false), Ok(()));
    assert_eq!(flags(&players), vec![false, true]);
}

#[test]
fn doubles_stock_tie_goes_to_lower_damage() {
    let mut players = vec![
        player(0, 1, 30_000, Some("Red")),
        player(1, 1, 10_000, Some("Red")),
        player(2, 2, 5_000, Some("Blue")),
        player(3, 0, 140_000, Some("Blue")),
    ];
    assert_eq!(decide(&players, true), Ok(Decision::Team("Blue".to_string())));
    assert_eq!(determine_winners(&mut players, true), Ok(()));
    assert_eq!(flags(&players), vec![false, false, true, true]);
}

#[test]
fn doubles_more_stocks_win_whatever_the_damage() {
    let mut players = vec![
        player(0, 1, 0, Some("Red")),
        player(1, 1, 0, Some("Blue")),
        player(2, 2, 250_000, Some("Blue")),
        player(3, 1, 0, Some("Red")),
    ];
    assert_eq!(determine_winners(&mut players, true), Ok(()));
    assert_eq!(flags(&players), vec![false, true, true, false]);
}

#[test]
fn doubles_dead_players_add_no_damage() {
    let mut players = vec![
        player(0, 2, 40_000, Some("Red")),
        player(1, 0, 500_000, Some("Red")),
        player(2, 1, 20_000, Some("Blue")),
        player(3, 1, 30_000, Some("Blue")),
    ];
    assert_eq!(determine_winners(&mut players, true), Ok(()));
    assert_eq!(flags(&players), vec![true, true, false, false]);
}

#[test]
fn doubles_full_tie_goes_to_first_team() {
    let mut players = vec![
        player(0, 0, 0, Some("Green")),
        player(1, 2, 10_000, Some("Blue")),
        player(2, 1, 5_000, Some("Green")),
        player(3, 1, 5_000, Some("Green")),
    ];
    assert_eq!(determine_winners(&mut players, true), Ok(()));
    assert_eq!(flags(&players), vec![false, true, false, false]);
}

#[test]
fn doubles_two_survivors_of_one_team() {
    let mut players = vec![
        player(0, 1, 0, Some("Red")),
        player(1, 0, 0, Some("Blue")),
        player(2, 0, 0, Some("Blue")),
        player(3, 1, 0, Some("Red")),
    ];
    assert_eq!(determine_winners(&mut players, true), Ok(()));
    assert_eq!(flags(&players), vec![true, false, false, true]);
}

#[test]
fn three_teammates_alive_take_the_shortcut() {
    let mut players = vec![
        player(0, 1, 0, Some("Red")),
        player(1, 3, 0, Some("Red")),
        player(2, 0, 0, Some("Blue")),
        player(3, 1, 0, Some("Red")),
    ];
    assert_eq!(decide(&players, false), Ok(Decision::Team("Red".to_string())));
    assert_eq!(determine_winners(&mut players, false), Ok(()));
    assert_eq!(flags(&players), vec![true, true, false, true]);
}

#[test]
fn lone_survivor_carries_dead_teammate() {
    let mut players = vec![
        player(0, 0, 300_000, Some("Blue")),
        player(1, 0, 0, Some("Red")),
        player(2, 1, 90_000, Some("Blue")),
        player(3, 0, 0, Some("Red")),
    ];
    assert_eq!(determine_winners(&mut players, true), Ok(()));
    assert_eq!(flags(&players), vec![true, false, true, false]);
}

#[test]
fn stock_dominance_ignores_damage() {
    let mut players = vec![player(0, 3, 400_000, None), player(1, 2, 0, None)];
    assert_eq!(determine_winners(&mut players, false), Ok(()));
    assert_eq!(flags(&players), vec![true, false]);
}

#[test]
fn lower_damage_breaks_stock_tie() {
    let mut players = vec![player(0, 2, 80_500, None), player(1, 2, 80_499, None)];
    assert_eq!(determine_winners(&mut players, false), Ok(()));
    assert_eq!(flags(&players), vec![false, true]);
}

#[test]
fn full_tie_goes_to_first() {
    let mut players = vec![
        player(0, 0, 0, None),
        player(1, 2, 70_000, None),
        player(2, 2, 70_000, None),
    ];
    assert_eq!(decide(&players, false), Ok(Decision::Slot(1)));
    assert_eq!(determine_winners(&mut players, false), Ok(()));
    assert_eq!(flags(&players), vec![false, true, false]);
}

#[test]
fn singles_has_exactly_one_winner() {
    let mut players = vec![
        player(0, 1, 10_000, None),
        player(1, 4, 90_000, None),
        player(2, 2, 0, None),
        player(3, 0, 0, None),
    ];
    assert_eq!(determine_winners(&mut players, false), Ok(()));
    assert_eq!(flags(&players).iter().filter(|w| **w).count(), 1);
    assert_eq!(flags(&players), vec![false, true, false, false]);
}

#[test]
fn nobody_alive_is_an_error_and_changes_nothing() {
    let mut players = vec![player(0, 0, 10_000, Some("Red")), player(1, 0, 20_000, None)];
    let before = players.clone();
    assert_eq!(determine_winners(&mut players, false), Err(InvalidState::NoSurvivor));
    assert_eq!(players, before);
    assert_eq!(determine_winners(&mut players, true), Err(InvalidState::NoSurvivor));
    assert_eq!(players, before);
    let mut nobody: Vec<Player> = Vec::new();
    assert_eq!(determine_winners(&mut nobody, false), Err(InvalidState::NoSurvivor));
}

#[test]
fn survivor_without_team_in_team_match_is_an_error() {
    let mut players = vec![
        player(0, 1, 0, Some("Red")),
        player(1, 1, 0, None),
        player(2, 0, 0, Some("Blue")),
    ];
    let before = players.clone();
    assert_eq!(determine_winners(&mut players, true), Err(InvalidState::NoTeam));
    assert_eq!(players, before);
}

#[test]
fn three_living_teams_are_an_error() {
    let mut players = vec![
        player(0, 1, 0, Some("Red")),
        player(1, 1, 0, Some("Blue")),
        player(2, 4, 0, Some("Green")),
    ];
    let before = players.clone();
    assert_eq!(determine_winners(&mut players, true), Err(InvalidState::CrowdedField));
    assert_eq!(players, before);
}

#[test]
fn missing_team_is_reported_before_crowded_field() {
    let mut players = vec![
        player(0, 1, 0, Some("Red")),
        player(1, 1, 0, Some("Blue")),
        player(2, 1, 0, Some("Green")),
        player(3, 1, 0, None),
    ];
    assert_eq!(determine_winners(&mut players, true), Err(InvalidState::NoTeam));
}

#[test]
fn earlier_flags_are_kept() {
    let mut players = vec![player(0, 1, 0, None), player(1, 2, 0, None)];
    players[0].winner = true;
    assert_eq!(determine_winners(&mut players, false), Ok(()));
    assert_eq!(flags(&players), vec![true, true]);
}

#[test]
fn deciding_twice_changes_nothing_more() {
    let mut players = vec![
        player(0, 1, 30_000, Some("Red")),
        player(1, 1, 10_000, Some("Red")),
        player(2, 2, 5_000, Some("Blue")),
    ];
    assert_eq!(determine_winners(&mut players, true), Ok(()));
    let once = players.clone();
    assert_eq!(determine_winners(&mut players, true), Ok(()));
    assert_eq!(players, once);
}

#[test]
fn living_slots_keep_order() {
    let players = vec![
        player(0, 0, 0, None),
        player(1, 2, 0, None),
        player(2, 0, 0, None),
        player(3, 1, 0, None),
    ];
    assert_eq!(living_slots(&players), vec![1, 3]);
    assert_eq!(living_slots(&Vec::new()), Vec::<usize>::new());
}

#[test]
fn same_team_needs_a_team_on_everyone() {
    let players = vec![
        player(0, 1, 0, Some("Red")),
        player(1, 1, 0, Some("Red")),
        player(2, 1, 0, None),
        player(3, 1, 0, Some("Blue")),
    ];
    assert!(on_same_team(&players, &vec![0, 1]));
    assert!(!on_same_team(&players, &vec![0, 1, 2]));
    assert!(!on_same_team(&players, &vec![0, 3]));
    assert!(!on_same_team(&players, &vec![2]));
    assert!(!on_same_team(&players, &Vec::new()));
}

#[test]
fn set_team_winners_flags_the_team_only() {
    let mut players = vec![
        player(0, 1, 0, Some("Red")),
        player(1, 0, 0, Some("Blue")),
        player(2, 1, 0, None),
        player(3, 0, 0, Some("Red")),
    ];
    set_team_winners("Red", &mut players);
    assert_eq!(flags(&players), vec![true, false, false, true]);
}

#[test]
fn tiebreak_totals_compare_stocks_then_damage() {
    let a = Tiebreak { stocks: 3, damage: 100, color: "Red".to_string() };
    let b = Tiebreak { stocks: 2, damage: 0, color: "Blue".to_string() };
    let c = Tiebreak { stocks: 3, damage: 99, color: "Green".to_string() };
    assert!(a.prevails(&b));
    assert!(!b.prevails(&a));
    assert!(!a.prevails(&c));
    assert!(c.prevails(&a));
    assert!(a.prevails(&a));
}

#[test]
fn tiebreak_singles_and_doubles() {
    let players = vec![
        player(0, 2, 10, Some("Red")),
        player(1, 2, 9, Some("Blue")),
        player(2, 1, 0, Some("Red")),
    ];
    assert_eq!(Tiebreak::singles(&players, 0, 1), 1);
    assert_eq!(Tiebreak::singles(&players, 0, 2), 0);
    assert_eq!(Tiebreak::singles(&players, 2, 0), 0);
    assert_eq!(Tiebreak::doubles(&players, 0), Ok("Red".to_string()));
    assert_eq!(Tiebreak::doubles(&players, 1), Ok("Red".to_string()));
}

#[test]
fn large_damage_totals_do_not_wrap() {
    let mut players = vec![
        player(0, 255, u32::MAX, Some("Red")),
        player(1, 255, u32::MAX, Some("Red")),
        player(2, 255, u32::MAX, Some("Blue")),
        player(3, 255, u32::MAX - 1, Some("Blue")),
    ];
    assert_eq!(determine_winners(&mut players, true), Ok(()));
    assert_eq!(flags(&players), vec![false, false, true, true]);
}

#[test]
fn each_error_says_what_is_wrong() {
    assert_eq!(InvalidState::NoSurvivor.message(), "no player has a stock left");
    assert_eq!(InvalidState::NoTeam.message(), "a surviving player has no team");
    assert_eq!(InvalidState::CrowdedField.message(), "more than two teams survive");
}

#[test]
fn three_survivors_without_teams_are_decided_between_the_first_two() {
    let mut players = vec![
        player(0, 1, 0, None),
        player(1, 1, 10, None),
        player(2, 4, 0, None),
    ];
    assert_eq!(determine_winners(&mut players, false), Ok(()));
    assert_eq!(flags(&players), vec![true, false, false]);
}

#[test]
fn two_teammates_alive_without_team_mode_are_told_apart() {
    let mut players = vec![
        player(0, 1, 0, Some("Red")),
        player(1, 2, 0, Some("Red")),
        player(2, 0, 0, Some("Blue")),
    ];
    assert_eq!(determine_winners(&mut players, false), Ok(()));
    assert_eq!(flags(&players), vec![false, true, false]);
}
