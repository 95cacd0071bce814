use tetris::board::{Board, HEIGHT, WIDTH};
use tetris::controls::{command_for, Command, Input};
use tetris::game::{restock, Game, DOWN_TIMES, STARTING_LEVEL};
use tetris::tetro::Tetro;

fn same(a: &Tetro, b: &Tetro) -> bool {
    a.tiles == b.tiles && a.width == b.width && a.height == b.height && a.pos == b.pos
        && a.color == b.color
}

fn standard() -> Vec<Tetro> {
    let p = (5, 2);
    vec![
        Tetro::I(p),
        Tetro::J(p),
        Tetro::L(p),
        Tetro::O(p),
        Tetro::S(p),
        Tetro::Z(p),
        Tetro::T(p),
    ]
}

fn is_permutation_of_standard(pieces: &[Tetro]) -> bool {
    let st = standard();
    if pieces.len() != st.len() {
        return false;
    }
    st.iter().all(|s| pieces.iter().filter(|p| same(p, s)).count() == 1)
}

fn fill_row_except(b: &mut Board, row: usize, gaps: &[usize]) {
    for c in 0..WIDTH {
        b.tiles[row][c] = !gaps.contains(&c);
    }
}

/// A game whose falling piece is an I standing at column 0, rows 18..=21,
/// over `n` bottom rows that miss only column 0.
fn game_with_lines(n: usize) -> Game {
    let mut g = Game::new();
    for k in 0..n {
        fill_row_except(&mut g.board, HEIGHT - 1 - k, &[0]);
    }
    g.tetro = Tetro::I((0, 18));
    g
}

#[test]
fn new_game_starts_with_a_z_and_a_full_bag() {
    let g = Game::new();
    assert!(same(&g.tetro, &Tetro::Z((5, 2))));
    assert_eq!(g.level, STARTING_LEVEL);
    assert_eq!(g.level, 1);
    assert_eq!(g.score, 0);
    assert_eq!(g.xp, 0);
    assert_eq!(g.down_time, 1000);
    assert!(g.held_tetro.is_none());
    assert!(!g.locking && !g.holding && !g.paused);
    assert!(is_permutation_of_standard(&g.bag));
    assert!(is_permutation_of_standard(&g.tetros));
    for (a, b) in g.bag.iter().zip(g.tetros.iter()) {
        assert!(same(a, b));
    }
    for r in 0..HEIGHT {
        for c in 0..WIDTH {
            assert!(!g.board.tiles[r][c]);
        }
    }
}

#[test]
fn down_times_follow_the_table() {
    assert_eq!(DOWN_TIMES[0], 1000);
    assert_eq!(DOWN_TIMES[1], 793);
    assert_eq!(DOWN_TIMES[20], 1);
}

#[test]
fn restock_shuffles_the_same_pieces() {
    let mut tetros = [
        Tetro::I((5, 2)),
        Tetro::J((5, 2)),
        Tetro::L((5, 2)),
        Tetro::O((5, 2)),
        Tetro::S((5, 2)),
        Tetro::Z((5, 2)),
        Tetro::T((5, 2)),
    ];
    let first_order: Vec<u8> = tetros.iter().map(|t| t.color).collect();
    let mut bag = vec![Tetro::O((0, 0)); 3];
    let mut changed = false;
    for _ in 0..20 {
        restock(&mut bag, &mut tetros);
        assert_eq!(bag.len(), 7);
        assert!(is_permutation_of_standard(&bag));
        for (a, b) in bag.iter().zip(tetros.iter()) {
            assert!(same(a, b));
        }
        let order: Vec<u8> = tetros.iter().map(|t| t.color).collect();
        if order != first_order {
            changed = true;
        }
    }
    // twenty shuffles that all keep the order happen with odds of 5040^-20
    assert!(changed);
}

#[test]
fn new_tetro_takes_the_last_and_refills() {
    let mut g = Game::new();
    let mut seen = Vec::new();
    for k in 0..7 {
        let expected = *g.bag.last().unwrap();
        let t = g.new_tetro();
        assert!(same(&t, &expected));
        seen.push(t);
        if k < 6 {
            assert_eq!(g.bag.len(), 6 - k);
        } else {
            assert_eq!(g.bag.len(), 7);
            assert!(is_permutation_of_standard(&g.bag));
        }
    }
    assert!(is_permutation_of_standard(&seen));
}

#[test]
fn mv_current_moves_only_to_good_places() {
    let mut g = Game::new();
    assert!(g.mv_current((1, 0)));
    assert_eq!(g.tetro.pos, (6, 2));
    assert!(g.mv_current((0, 1)));
    assert_eq!(g.tetro.pos, (6, 3));
    // Z is three wide: x = 7 is the rightmost place
    assert!(g.mv_current((1, 0)));
    assert!(!g.mv_current((1, 0)));
    assert_eq!(g.tetro.pos, (7, 3));
    // and back again
    assert!(g.mv_current((-1, 0)));
    assert_eq!(g.tetro.pos, (6, 3));
}

#[test]
fn mv_current_stops_on_occupied_cells() {
    let mut g = Game::new();
    g.board.tiles[4][5] = true;
    assert!(!g.mv_current((0, 2)));
    assert_eq!(g.tetro.pos, (5, 2));
}

#[test]
fn rot_current_turns_in_place_when_it_can() {
    let mut g = Game::new();
    g.tetro = Tetro::I((4, 5));
    assert!(g.rot_current(true));
    assert_eq!(g.tetro.tiles, [(3, 0), (2, 0), (1, 0), (0, 0)]);
    assert_eq!(g.tetro.pos, (4, 5));
}

#[test]
fn rot_current_turns_the_l_clockwise_on_screen() {
    let mut g = Game::new();
    g.tetro = Tetro::L((4, 5));
    assert!(g.rot_current(true));
    // X./X./XX becomes XXX/X..
    assert_eq!(g.tetro.tiles, [(2, 0), (1, 0), (0, 0), (0, 1)]);
    assert_eq!(g.tetro.pos, (4, 5));
}

#[test]
fn rot_current_kicks_left_at_the_right_wall() {
    let mut g = Game::new();
    // vertical I at the right wall: lying down needs x <= 6
    g.tetro = Tetro::I((9, 5));
    // in place (x = 9), down, up and right are invalid; left (x = 8) too
    assert!(!g.rot_current(true));
    assert_eq!(g.tetro.pos, (9, 5));
    g.tetro = Tetro::T((8, 5));
    // T turned clockwise is two wide and three high: fits at x = 8
    assert!(g.rot_current(true));
    assert_eq!(g.tetro.pos, (8, 5));
}

#[test]
fn rot_current_tries_one_down_before_one_up() {
    let mut g = Game::new();
    // a lying I at (4, 5), turned, stands at rows 5..=8 in column 4
    let mut flat = Tetro::I((4, 5));
    g.tetro = flat.rot(true);
    g.board.tiles[5][4] = true;
    assert!(g.rot_current(true));
    // in place collides with (4,5), one down (rows 6..=9) is free
    assert_eq!(g.tetro.pos, (4, 6));
}

#[test]
fn rot_current_turns_clockwise_whatever_the_flag() {
    let mut g = Game::new();
    g.tetro = Tetro::L((3, 5));
    let mut l = Tetro::L((3, 5));
    let cw = l.rot(true);
    assert!(g.rot_current(false));
    assert!(same(&g.tetro, &cw));
}

#[test]
fn hold_once_until_the_next_lock() {
    let mut g = Game::new();
    let first = g.tetro;
    let next = *g.bag.last().unwrap();
    g.locking = true;
    assert_eq!(g.hold(), (true, false));
    assert!(g.holding);
    assert!(!g.locking);
    assert!(same(&g.held_tetro.unwrap(), &first));
    assert_eq!(g.tetro.tiles, next.tiles);
    assert_eq!(g.tetro.pos, (5, 2));
    assert_eq!(g.bag.len(), 6);
    let before = g.tetro;
    assert_eq!(g.hold(), (false, false));
    assert!(same(&g.tetro, &before));
    // locking lets us hold again: the held Z comes back
    g.tetro = Tetro::O((0, 20));
    let (_, over) = g.next();
    assert!(!over);
    assert!(!g.holding);
    let falling = g.tetro;
    assert_eq!(g.hold(), (true, false));
    assert!(same(&g.tetro, &Tetro::Z((5, 2))));
    assert!(same(&g.held_tetro.unwrap(), &falling));
}

#[test]
fn hold_keeps_the_turn_of_the_held_piece() {
    let mut g = Game::new();
    assert!(g.rot_current(true));
    let turned = g.tetro;
    g.hold();
    g.holding = false;
    g.hold();
    assert_eq!(g.tetro.tiles, turned.tiles);
    assert_eq!(g.tetro.pos, (5, 2));
}

#[test]
fn update_moves_down_then_rests() {
    let mut g = Game::new();
    g.tetro = Tetro::O((4, 18));
    assert_eq!(g.update(), (true, false));
    assert_eq!(g.tetro.pos, (4, 19));
    assert!(!g.locking);
    assert_eq!(g.update(), (true, false));
    assert_eq!(g.tetro.pos, (4, 20));
    assert!(g.locking);
    assert_eq!(g.update(), (false, false));
    assert!(g.locking);
}

#[test]
fn a_piece_that_slides_off_a_ledge_no_longer_rests() {
    let mut g = Game::new();
    g.board.tiles[10][4] = true;
    g.tetro = Tetro::O((4, 8));
    assert_eq!(g.update(), (false, false));
    assert!(g.locking);
    assert!(g.mv_current((-2, 0)));
    assert!(!g.locking);
    assert_eq!(g.update(), (true, false));
    assert!(!g.locking);
}

#[test]
fn moving_onto_a_ledge_rests() {
    let mut g = Game::new();
    g.board.tiles[10][4] = true;
    g.tetro = Tetro::O((5, 8));
    assert!(!g.locking);
    assert!(g.mv_current((-1, 0)));
    assert!(g.locking);
}

#[test]
fn turning_sets_whether_the_piece_rests() {
    let mut g = Game::new();
    // a lying I at row 18, turned, stands on the floor at rows 18..=21
    let mut flat = Tetro::I((0, 18));
    g.tetro = flat.rot(true);
    assert!(!g.locking);
    assert!(g.rot_current(true));
    assert_eq!(g.tetro.pos, (0, 18));
    assert!(g.locking);
    g.tetro = Tetro::T((4, 3));
    g.locking = true;
    assert!(g.rot_current(true));
    assert!(!g.locking);
}

#[test]
fn update_ends_the_game_when_resting_at_the_top() {
    let mut g = Game::new();
    fill_row_except(&mut g.board, 3, &[]);
    g.tetro = Tetro::O((4, 0));
    assert_eq!(g.update(), (true, true));
    assert_eq!(g.tetro.pos, (4, 1));
    assert!(g.locking);
    assert_eq!(g.update(), (false, true));
}

#[test]
fn update_resting_lower_is_not_the_end() {
    let mut g = Game::new();
    fill_row_except(&mut g.board, 4, &[]);
    g.tetro = Tetro::O((4, 1));
    assert_eq!(g.update(), (true, false));
    assert_eq!(g.tetro.pos, (4, 2));
    assert!(g.locking);
}

#[test]
fn next_without_lines_locks_and_spawns() {
    let mut g = Game::new();
    g.tetro = Tetro::O((0, 20));
    g.locking = true;
    let expected = *g.bag.last().unwrap();
    let (lines, over) = g.next();
    assert!(lines.is_empty());
    assert!(!over);
    assert!(g.board.tiles[20][0] && g.board.tiles[21][1]);
    assert_eq!(g.board.colors[21][1], 1);
    assert!(same(&g.tetro, &expected));
    assert_eq!(g.score, 0);
    assert!(!g.locking);
}

#[test]
fn one_line_scores_40_times_the_level() {
    let mut g = game_with_lines(1);
    let (lines, over) = g.next();
    assert_eq!(lines, vec![21]);
    assert!(!over);
    assert_eq!(g.score, 40);
    assert_eq!(g.xp, 1);
    assert_eq!(g.level, 1);
    // the three cells of the I above the cleared line moved down one
    assert!(g.board.tiles[21][0] && g.board.tiles[20][0] && g.board.tiles[19][0]);
    assert!(!g.board.tiles[18][0]);
    assert!(!g.board.tiles[21][1]);
}

#[test]
fn two_lines_score_100_and_three_300() {
    let mut g = game_with_lines(2);
    let (lines, _) = g.next();
    assert_eq!(lines, vec![20, 21]);
    assert_eq!(g.score, 100);
    assert_eq!(g.xp, 3);
    let mut g3 = game_with_lines(3);
    let (lines3, _) = g3.next();
    assert_eq!(lines3, vec![19, 20, 21]);
    assert_eq!(g3.score, 300);
    // five experience reach the goal of level 1
    assert_eq!(g3.level, 2);
    assert_eq!(g3.xp, 0);
    assert_eq!(g3.down_time, 793);
}

#[test]
fn four_lines_score_1200_and_level_up() {
    let mut g = game_with_lines(4);
    let (lines, over) = g.next();
    assert_eq!(lines, vec![18, 19, 20, 21]);
    assert!(!over);
    assert_eq!(g.score, 1200);
    assert_eq!(g.level, 2);
    assert_eq!(g.xp, 3);
    assert_eq!(g.down_time, 793);
    for r in 0..HEIGHT {
        for c in 0..WIDTH {
            assert!(!g.board.tiles[r][c]);
        }
    }
}

#[test]
fn score_scales_with_the_level() {
    let mut g = game_with_lines(2);
    g.level = 3;
    g.down_time = DOWN_TIMES[2];
    g.xp = 4;
    let (_, _) = g.next();
    assert_eq!(g.score, 300);
    assert_eq!(g.xp, 7);
    assert_eq!(g.level, 3);
}

#[test]
fn lines_above_the_piece_are_not_cleared() {
    let mut g = Game::new();
    fill_row_except(&mut g.board, 10, &[]);
    g.tetro = Tetro::O((0, 20));
    assert!(g.can_lock());
    let (lines, _) = g.next();
    assert!(lines.is_empty());
    assert!(g.board.tiles[10][3]);
}

#[test]
fn can_lock_checks_the_field_and_the_limits() {
    let mut g = Game::new();
    assert!(g.can_lock());
    g.tetro = Tetro::O((4, -1));
    assert!(!g.can_lock());
    let mut g2 = game_with_lines(1);
    g2.score = u32::MAX - 40;
    assert!(g2.can_lock());
    g2.score = u32::MAX - 39;
    assert!(!g2.can_lock());
    let mut g3 = game_with_lines(4);
    g3.level = 21;
    g3.down_time = DOWN_TIMES[20];
    g3.xp = 97;
    assert!(!g3.can_lock());
    g3.xp = 96;
    assert!(g3.can_lock());
}

#[test]
fn spawning_into_a_full_top_ends_the_game() {
    let mut g = Game::new();
    for r in 0..6 {
        fill_row_except(&mut g.board, r, &[]);
    }
    g.tetro = Tetro::O((0, 20));
    let (_, over) = g.next();
    assert!(over);
}

#[test]
fn spawn_falls_back_to_a_free_place() {
    let mut g = Game::new();
    fill_row_except(&mut g.board, 3, &[]);
    let z = Tetro::Z((0, 0));
    let over = g.spawn_tetro(&z);
    assert!(over);
    // the Z at (5,2) reaches row 3; one up is free
    assert_eq!(g.tetro.pos, (5, 1));
}

#[test]
fn spawn_places_at_the_spawn_point() {
    let mut g = Game::new();
    let t = Tetro::T((-7, 13));
    assert!(!g.spawn_tetro(&t));
    assert_eq!(g.tetro.pos, (5, 2));
    assert_eq!(g.tetro.tiles, t.tiles);
}

#[test]
fn pause_sets_the_flag_and_resume_clears_it() {
    let mut g = Game::new();
    g.pause();
    assert!(g.paused);
    g.resume();
    assert!(!g.paused);
}

#[test]
fn key_map() {
    assert_eq!(command_for(false, Input::Char('q')), Command::Quit);
    assert_eq!(command_for(true, Input::Char('q')), Command::Quit);
    assert_eq!(command_for(true, Input::Left), Command::Resume);
    assert_eq!(command_for(false, Input::Right), Command::Move(1, 0));
    assert_eq!(command_for(false, Input::Left), Command::Move(-1, 0));
    assert_eq!(command_for(false, Input::Down), Command::Move(0, 1));
    assert_eq!(command_for(false, Input::Up), Command::Rotate(true));
    assert_eq!(command_for(false, Input::Char('h')), Command::Hold);
    assert_eq!(command_for(false, Input::Char('r')), Command::Rotate(false));
    assert_eq!(command_for(false, Input::Char(';')), Command::Move(1, 0));
    assert_eq!(command_for(false, Input::Char('j')), Command::Move(-1, 0));
    assert_eq!(command_for(false, Input::Char('k')), Command::Move(0, 1));
    assert_eq!(command_for(false, Input::Char('l')), Command::Rotate(true));
    assert_eq!(command_for(false, Input::Esc), Command::Pause);
    assert_eq!(command_for(false, Input::Char('x')), Command::Nothing);
    assert_eq!(command_for(false, Input::Other), Command::Nothing);
}
