use grid_game::engine::{Game, GameState, MoveDirection, MINIMUM_PLAYER_COUNT};
use grid_game::player::{Player, PlayerId};
use uuid::Uuid;

fn fresh_id() -> PlayerId {
    PlayerId(Uuid::new_v4().as_u128())
}

fn in_progress_game() -> (Game, PlayerId) {
    let mut g = Game::new();
    let first = g.add_player(fresh_id());
    for _ in 0..2 {
        g.add_player(fresh_id());
    }
    (g, first)
}

fn board_cells(g: &Game) -> Vec<Option<(u128, usize, String)>> {
    let mut out = Vec::new();
    for y in 0..8 {
        for x in 0..8 {
            out.push(
                g.cell(x, y)
                    .as_ref()
                    .map(|p| (p.id.0, p.score, p.color.clone())),
            );
        }
    }
    out
}

#[test]
fn test_game_state_move_prevention() {
    let mut test_g = Game::new();
    let new_player_id = test_g.add_player(fresh_id());

    // player at 0,0 should be able to move down, but only if game has begun!
    assert_eq!(test_g.player_move(new_player_id, MoveDirection::Down), false);
    assert_eq!(test_g.state(), GameState::NotStarted);
}

#[test]
fn test_move_is_valid() {
    let (test_g, new_player_id) = in_progress_game();

    match test_g.cell(0, 0) {
        Some(matched_player) => assert_eq!(matched_player.id, new_player_id),
        None => panic!("Did not add player as expected"),
    }

    // player starting at 0, 0 cannot move left or up, but can move right or down
    assert_eq!(test_g.move_is_valid(new_player_id, &MoveDirection::Left), false);
    assert_eq!(test_g.move_is_valid(new_player_id, &MoveDirection::Up), false);
    assert_eq!(test_g.move_is_valid(new_player_id, &MoveDirection::Down), true);
    assert_eq!(test_g.move_is_valid(new_player_id, &MoveDirection::Right), true);
}

#[test]
fn test_player_move() {
    let (mut test_g, new_player_id) = in_progress_game();

    match test_g.cell(0, 0) {
        Some(matched_player) => assert_eq!(matched_player.id, new_player_id),
        None => panic!("Did not add player as expected"),
    }

    // player hasn't moved down yet
    assert!(test_g.cell(0, 1).is_none());
    let success = test_g.player_move(new_player_id, MoveDirection::Down);
    assert_eq!(success, true);
    assert!(test_g.cell(0, 0).is_none());
    assert!(test_g.cell(0, 1).is_some());
}

#[test]
fn test_player_count() {
    let mut test_g = Game::new();
    for _ in 0..14 {
        test_g.add_player(fresh_id());
    }
    assert_eq!(test_g.player_count(), 14);
}

#[test]
fn test_player_score() {
    let mut test_g = Game::new();
    // (0, 0)
    let first_id = test_g.add_player(fresh_id());
    // (1, 0)
    let second_id = test_g.add_player(fresh_id());

    match test_g.player(first_id) {
        None => panic!("Player not found as expected"),
        Some(p) => assert_eq!(p.score, 0),
    }
    match test_g.player(second_id) {
        None => panic!("Player not found as expected"),
        Some(p) => assert_eq!(p.score, 0),
    }
    assert_eq!(test_g.locate(second_id), Some((1, 0)));

    test_g.player_move(first_id, MoveDirection::Right);

    // the first player is now at (1, 0), and has scored
    match test_g.player(first_id) {
        None => panic!("Player not found as expected"),
        Some(p) => assert_eq!(p.score, 1),
    }
    assert_eq!(test_g.locate(first_id), Some((1, 0)));

    // the second player respawned at (0, 0), and has not scored
    match test_g.player(second_id) {
        None => panic!("Player not found as expected"),
        Some(p) => assert_eq!(p.score, 0),
    }
    assert_eq!(test_g.locate(second_id), Some((0, 0)));
}

#[test]
fn new_game_is_empty_and_not_started() {
    let g = Game::new();
    assert_eq!(g.state(), GameState::NotStarted);
    assert_eq!(g.min_players(), MINIMUM_PLAYER_COUNT);
    assert_eq!(g.player_count(), 0);
    assert_eq!(g.board().first_empty(), Some((0, 0)));
}

#[test]
fn edge_cells_block_outward_moves() {
    // Players in the four corners, with the game in progress.
    let corners = [(0usize, 0usize), (7, 0), (0, 7), (7, 7)];
    for &(cx, cy) in corners.iter() {
        let mut g = Game::with_min_players(2);
        let mut mover = None;
        for i in 0..64usize {
            let id = g.add_player(PlayerId(i as u128 + 1));
            if (i % 8, i / 8) == (cx, cy) {
                mover = Some(id);
            }
        }
        let id = mover.unwrap();
        // clear all other cells so that moves are free of collisions
        for i in 0..64u128 {
            if PlayerId(i + 1) != id {
                g.remove_player(PlayerId(i + 1));
            }
        }
        assert_eq!(g.state(), GameState::InProgress);
        let expect = |d: MoveDirection| match d {
            MoveDirection::Left => cx != 0,
            MoveDirection::Right => cx != 7,
            MoveDirection::Up => cy != 0,
            MoveDirection::Down => cy != 7,
        };
        for d in [MoveDirection::Up, MoveDirection::Down, MoveDirection::Left, MoveDirection::Right] {
            assert_eq!(g.move_is_valid(id, &d), expect(d));
        }
    }
}

#[test]
fn refused_edge_move_changes_nothing() {
    let mut g = Game::with_min_players(2);
    let a = g.add_player_with_color(PlayerId(1), "10".to_string());
    g.add_player_with_color(PlayerId(2), "20".to_string());
    assert_eq!(g.state(), GameState::InProgress);
    let before = board_cells(&g);
    assert!(!g.player_move(a, MoveDirection::Up));
    assert!(!g.player_move(a, MoveDirection::Left));
    assert_eq!(board_cells(&g), before);
    assert!(g.player_move(a, MoveDirection::Down));
    assert_eq!(g.locate(a), Some((0, 1)));
}

#[test]
fn moves_from_inner_cell_all_succeed() {
    let mut g = Game::with_min_players(2);
    for i in 0..10u128 {
        g.add_player_with_color(PlayerId(i + 1), "1".to_string());
    }
    // PlayerId(10) sits at (1, 1); clear the others.
    for i in 0..9u128 {
        assert!(g.remove_player(PlayerId(i + 1)));
    }
    let id = PlayerId(10);
    assert_eq!(g.locate(id), Some((1, 1)));
    assert!(g.player_move(id, MoveDirection::Right));
    assert_eq!(g.locate(id), Some((2, 1)));
    assert!(g.player_move(id, MoveDirection::Down));
    assert_eq!(g.locate(id), Some((2, 2)));
    assert!(g.player_move(id, MoveDirection::Left));
    assert_eq!(g.locate(id), Some((1, 2)));
    assert!(g.player_move(id, MoveDirection::Up));
    assert_eq!(g.locate(id), Some((1, 1)));
}

#[test]
fn no_move_before_the_game_begins() {
    let mut g = Game::with_min_players(3);
    let a = g.add_player_with_color(PlayerId(1), "5".to_string());
    let b = g.add_player_with_color(PlayerId(2), "6".to_string());
    let before = board_cells(&g);
    for d in [MoveDirection::Up, MoveDirection::Down, MoveDirection::Left, MoveDirection::Right] {
        assert!(!g.player_move(a, d));
        assert!(!g.player_move(b, d));
    }
    assert_eq!(board_cells(&g), before);
    assert_eq!(g.state(), GameState::NotStarted);
}

#[test]
fn unknown_player_cannot_move() {
    let (mut g, _) = in_progress_game();
    let before = board_cells(&g);
    assert!(!g.move_is_valid(PlayerId(42), &MoveDirection::Down));
    assert!(!g.player_move(PlayerId(42), MoveDirection::Right));
    assert_eq!(board_cells(&g), before);
}

#[test]
fn adding_twice_changes_nothing() {
    let mut g = Game::new();
    let id = fresh_id();
    assert_eq!(g.add_player(id), id);
    let before = board_cells(&g);
    let count = g.player_count();
    assert_eq!(g.add_player(id), id);
    assert_eq!(board_cells(&g), before);
    assert_eq!(g.player_count(), count);
}

#[test]
fn players_fill_the_board_in_scan_order() {
    let mut g = Game::with_min_players(100);
    for i in 0..64u128 {
        g.add_player_with_color(PlayerId(i + 1), format!("{}", i));
    }
    for i in 0..64usize {
        let p = g.cell(i % 8, i / 8).as_ref().unwrap();
        assert_eq!(p.id, PlayerId(i as u128 + 1));
        assert_eq!(p.score, 0);
    }
    assert_eq!(g.player_count(), 64);
    assert_eq!(g.board().first_empty(), None);
    // A full board turns a new player away silently.
    assert_eq!(g.add_player(PlayerId(1000)), PlayerId(1000));
    assert_eq!(g.locate(PlayerId(1000)), None);
    assert_eq!(g.player_count(), 64);
}

#[test]
fn partial_fill_leaves_later_cells_empty() {
    let mut g = Game::new();
    for i in 0..11u128 {
        g.add_player_with_color(PlayerId(i + 1), "0".to_string());
    }
    assert_eq!(g.locate(PlayerId(9)), Some((0, 1)));
    assert_eq!(g.locate(PlayerId(11)), Some((2, 1)));
    assert!(g.cell(3, 1).is_none());
    assert_eq!(g.board().first_empty(), Some((3, 1)));
}

#[test]
fn phase_begins_exactly_at_the_threshold() {
    let mut g = Game::with_min_players(4);
    for i in 0..3u128 {
        g.add_player(PlayerId(i + 1));
        assert_eq!(g.state(), GameState::NotStarted);
    }
    g.add_player(PlayerId(4));
    assert_eq!(g.state(), GameState::InProgress);
    // Leaving never sends the game back.
    for i in 0..4u128 {
        g.remove_player(PlayerId(i + 1));
    }
    assert_eq!(g.player_count(), 0);
    assert_eq!(g.state(), GameState::InProgress);
    g.add_player(PlayerId(9));
    assert_eq!(g.state(), GameState::InProgress);
}

#[test]
fn collision_with_threshold_three() {
    let mut g = Game::with_min_players(3);
    let first = g.add_player(PlayerId(1));
    let second = g.add_player(PlayerId(2));
    assert_eq!(g.state(), GameState::NotStarted);
    let third = g.add_player(PlayerId(3));
    assert_eq!(g.locate(first), Some((0, 0)));
    assert_eq!(g.locate(second), Some((1, 0)));
    assert_eq!(g.locate(third), Some((2, 0)));
    assert_eq!(g.state(), GameState::InProgress);

    assert!(g.player_move(first, MoveDirection::Right));
    assert_eq!(g.locate(first), Some((1, 0)));
    assert_eq!(g.player(first).unwrap().score, 1);
    assert_eq!(g.locate(second), Some((0, 0)));
    assert_eq!(g.player(second).unwrap().score, 0);
    assert_eq!(g.locate(third), Some((2, 0)));
    assert_eq!(g.player_count(), 3);
}

#[test]
fn knocked_player_goes_to_first_empty_cell_not_the_vacated_one() {
    let mut g = Game::with_min_players(2);
    for i in 0..10u128 {
        g.add_player_with_color(PlayerId(i + 1), "7".to_string());
    }
    // Open a hole at (4, 0); PlayerId(10) at (1, 1) moves up onto PlayerId(2).
    assert!(g.remove_player(PlayerId(5)));
    assert!(g.player_move(PlayerId(10), MoveDirection::Up));
    assert_eq!(g.locate(PlayerId(10)), Some((1, 0)));
    assert_eq!(g.locate(PlayerId(2)), Some((4, 0)));
    assert!(g.cell(1, 1).is_none());
    assert_eq!(g.player(PlayerId(10)).unwrap().score, 1);
    assert_eq!(g.player(PlayerId(2)).unwrap().score, 0);
}

#[test]
fn knocked_player_can_land_on_the_vacated_cell_above() {
    let mut g = Game::with_min_players(2);
    for i in 0..16u128 {
        g.add_player_with_color(PlayerId(i + 1), "7".to_string());
    }
    // PlayerId(4) at (3, 0) moves down onto PlayerId(12) at (3, 1).
    assert!(g.player_move(PlayerId(4), MoveDirection::Down));
    assert_eq!(g.locate(PlayerId(4)), Some((3, 1)));
    assert_eq!(g.locate(PlayerId(12)), Some((3, 0)));
}

#[test]
fn scores_keep_counting() {
    let mut g = Game::with_min_players(2);
    let a = g.add_player(PlayerId(1));
    g.add_player(PlayerId(2));
    // a at (0,0) and b at (1,0) keep swapping through collisions.
    assert!(g.player_move(a, MoveDirection::Right));
    assert_eq!(g.locate(a), Some((1, 0)));
    assert_eq!(g.locate(PlayerId(2)), Some((0, 0)));
    assert!(g.player_move(a, MoveDirection::Left));
    assert_eq!(g.player(a).unwrap().score, 2);
    assert_eq!(g.locate(a), Some((0, 0)));
    assert_eq!(g.locate(PlayerId(2)), Some((1, 0)));
}

#[test]
fn remove_player_reports_presence() {
    let mut g = Game::new();
    let a = g.add_player(PlayerId(7));
    assert!(g.remove_player(a));
    assert!(!g.remove_player(a));
    assert_eq!(g.locate(a), None);
    assert!(g.player(a).is_none());
    assert_eq!(g.player_count(), 0);
}

#[test]
fn random_colors_are_decimal_codes() {
    for _ in 0..50 {
        let p = Player::new(PlayerId(3));
        assert_eq!(p.id, PlayerId(3));
        assert_eq!(p.score, 0);
        let code: u32 = p.color().parse().unwrap();
        assert!(code < 0xFFFFFF);
        assert_eq!(code.to_string(), p.color);
    }
}

#[test]
fn snapshot_copies_the_game() {
    let (g, first) = in_progress_game();
    let s = g.snapshot();
    assert_eq!(board_cells(&s), board_cells(&g));
    assert_eq!(s.state(), g.state());
    assert_eq!(s.locate(first), Some((0, 0)));
}
