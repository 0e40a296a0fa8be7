use tictactoe::{generate_range, Cell, ComputerPlayer, Controller, Level};

fn play(c: &mut Controller, moves: &[(usize, usize)]) {
    for &(r, col) in moves {
        assert!(c.is_free(r, col));
        c.play_turn(r, col);
    }
}

fn snapshot(c: &Controller) -> Vec<Cell> {
    let mut v = Vec::new();
    for r in 1..4 {
        for col in 1..4 {
            v.push(c.get_content(r, col));
        }
    }
    v
}

fn computer(mark: Cell, level: Level) -> ComputerPlayer {
    let mut p = ComputerPlayer::new();
    p.set_player_turn(mark);
    p.set_level(level);
    p.set_active(true);
    p
}

#[test]
fn fresh_controller_is_empty_with_x_to_move() {
    let c = Controller::new();
    assert_eq!(c.get_player_turn(), Cell::X);
    assert!(snapshot(&c).iter().all(|&x| x == Cell::Empty));
    assert!(c.can_continue());
    assert_eq!(c.get_winner(), Cell::Empty);
    let d = Controller::default();
    assert_eq!(snapshot(&d), snapshot(&c));
}

#[test]
fn initialize_starts_a_new_round() {
    let mut c = Controller::new();
    play(&mut c, &[(1, 1), (2, 2)]);
    c.initialize();
    assert_eq!(c.get_player_turn(), Cell::X);
    assert!(snapshot(&c).iter().all(|&x| x == Cell::Empty));
}

#[test]
fn content_off_the_board_reads_empty() {
    let mut c = Controller::new();
    play(&mut c, &[(1, 1)]);
    assert_eq!(c.get_content(1, 1), Cell::X);
    assert_eq!(c.get_content(0, 1), Cell::Empty);
    assert_eq!(c.get_content(1, 0), Cell::Empty);
    assert_eq!(c.get_content(4, 1), Cell::Empty);
    assert_eq!(c.get_content(1, 4), Cell::Empty);
}

#[test]
fn is_free_rejects_occupied_and_off_board() {
    let mut c = Controller::new();
    play(&mut c, &[(2, 3)]);
    assert!(!c.is_free(2, 3));
    assert!(c.is_free(3, 2));
    assert!(!c.is_free(0, 2));
    assert!(!c.is_free(2, 4));
    assert!(!c.is_free(4, 4));
}

#[test]
fn placement_flips_turn_each_time() {
    let mut c = Controller::new();
    assert_eq!(c.get_player_turn(), Cell::X);
    c.play_turn(1, 1);
    assert_eq!(c.get_player_turn(), Cell::O);
    assert_eq!(c.get_content(1, 1), Cell::X);
    c.play_turn(3, 3);
    assert_eq!(c.get_player_turn(), Cell::X);
    assert_eq!(c.get_content(3, 3), Cell::O);
}

#[test]
fn full_board_without_winner_cannot_continue() {
    let mut c = Controller::new();
    play(&mut c, &[(1, 1), (1, 2), (1, 3), (2, 2), (2, 1), (2, 3), (3, 2), (3, 1)]);
    assert!(c.can_continue());
    c.play_turn(3, 3);
    assert!(!c.can_continue());
    assert_eq!(c.get_winner(), Cell::Empty);
}

#[test]
fn winner_found_on_each_kind_of_line() {
    let lines: [[(usize, usize); 3]; 8] = [
        [(1, 1), (2, 1), (3, 1)],
        [(1, 2), (2, 2), (3, 2)],
        [(1, 3), (2, 3), (3, 3)],
        [(1, 1), (1, 2), (1, 3)],
        [(2, 1), (2, 2), (2, 3)],
        [(3, 1), (3, 2), (3, 3)],
        [(1, 1), (2, 2), (3, 3)],
        [(1, 3), (2, 2), (3, 1)],
    ];
    for line in lines.iter() {
        let mut c = Controller::new();
        // O answers on squares off the line, never completing a line of its own.
        let mut others = Vec::new();
        for r in 1..4 {
            for col in 1..4 {
                if !line.contains(&(r, col)) {
                    others.push((r, col));
                }
            }
        }
        let mut k = 0;
        for (n, &(r, col)) in line.iter().enumerate() {
            assert_eq!(c.get_winner(), Cell::Empty);
            c.play_turn(r, col);
            if n < 2 {
                while !c.is_free(others[k].0, others[k].1) {
                    k += 1;
                }
                c.play_turn(others[k].0, others[k].1);
                k += 3;
            }
        }
        assert_eq!(c.get_winner(), Cell::X);
    }
}

#[test]
fn winner_stays_after_a_later_placement() {
    let mut c = Controller::new();
    play(&mut c, &[(1, 1), (1, 2), (2, 1), (2, 2), (3, 1)]);
    assert_eq!(c.get_winner(), Cell::X);
    c.play_turn(3, 3);
    assert_eq!(c.get_winner(), Cell::X);
}

#[test]
fn o_wins_a_column() {
    let mut c = Controller::new();
    play(&mut c, &[(1, 1), (1, 3), (2, 1), (2, 3), (3, 2), (3, 3)]);
    assert_eq!(c.get_winner(), Cell::O);
}

#[test]
fn top_row_of_x_wins_only_on_third_mark() {
    let mut c = Controller::new();
    c.play_turn(1, 1);
    assert_eq!(c.get_winner(), Cell::Empty);
    c.play_turn(1, 2);
    c.play_turn(2, 1);
    assert_eq!(c.get_winner(), Cell::Empty);
    c.play_turn(2, 2);
    assert_eq!(c.get_winner(), Cell::Empty);
    c.play_turn(3, 1);
    assert_eq!(c.get_winner(), Cell::X);
}

#[test]
fn partial_fills_give_no_false_winner() {
    let mut c = Controller::new();
    play(&mut c, &[(2, 2), (1, 1), (3, 3)]);
    assert_eq!(c.get_winner(), Cell::Empty);
    assert!(c.can_continue());
    play(&mut c, &[(1, 3), (1, 2)]);
    assert_eq!(c.get_winner(), Cell::Empty);
    assert!(c.can_continue());
}

#[test]
fn cell_text() {
    assert_eq!(Cell::X.to_str(), "X");
    assert_eq!(Cell::O.to_str(), "O");
    assert_eq!(Cell::Empty.to_str(), "");
}

#[test]
fn computer_player_settings() {
    let mut p = ComputerPlayer::new();
    assert!(!p.get_active());
    assert_eq!(p.get_opponent(), Cell::X);
    p.set_player_turn(Cell::X);
    assert_eq!(p.get_opponent(), Cell::O);
    p.set_player_turn(Cell::Empty);
    assert_eq!(p.get_opponent(), Cell::Empty);
    p.set_active(true);
    assert!(p.get_active());
    p.set_active(false);
    assert!(!p.get_active());
}

#[test]
fn inactive_or_off_turn_computer_does_nothing() {
    let mut c = Controller::new();
    let mut p = computer(Cell::X, Level::Smart);
    p.set_active(false);
    p.play_turn(&mut c);
    assert!(snapshot(&c).iter().all(|&x| x == Cell::Empty));
    assert_eq!(c.get_player_turn(), Cell::X);

    let q = computer(Cell::O, Level::Smart);
    q.play_turn(&mut c);
    assert!(snapshot(&c).iter().all(|&x| x == Cell::Empty));
    assert_eq!(c.get_player_turn(), Cell::X);
}

#[test]
fn generate_range_stays_in_bounds() {
    for _ in 0..200 {
        let r = generate_range(1, 4);
        assert!((1..4).contains(&r));
    }
    assert_eq!(generate_range(7, 8), 7);
}

#[test]
fn stupid_pick_matches_draws_to_free_squares() {
    let mut c = Controller::new();
    play(&mut c, &[(1, 1), (2, 2), (3, 1)]);
    let expected = vec![(1, 2), (1, 3), (2, 1), (2, 3), (3, 2), (3, 3)];
    for (k, &m) in expected.iter().enumerate() {
        assert_eq!(ComputerPlayer::stupid_pick(&c, k as u64), Some(m));
    }
    assert_eq!(ComputerPlayer::stupid_pick(&c, 6), None);
    assert_eq!(ComputerPlayer::stupid_pick(&c, u64::MAX), None);
}

#[test]
fn stupid_level_only_takes_free_squares() {
    for _ in 0..100 {
        let mut c = Controller::new();
        play(&mut c, &[(1, 1), (2, 2), (3, 1), (1, 3)]);
        let before = snapshot(&c);
        let p = computer(Cell::X, Level::Stupid);
        p.play_turn(&mut c);
        let after = snapshot(&c);
        let changed: Vec<usize> = (0..9).filter(|&i| before[i] != after[i]).collect();
        assert_eq!(changed.len(), 1);
        assert_eq!(before[changed[0]], Cell::Empty);
        assert_eq!(after[changed[0]], Cell::X);
        assert_eq!(c.get_player_turn(), Cell::O);
    }
}

#[test]
fn stupid_level_fills_last_free_square() {
    let mut c = Controller::new();
    play(&mut c, &[(1, 1), (1, 2), (1, 3), (2, 2), (2, 1), (2, 3), (3, 2), (3, 1)]);
    let p = computer(Cell::X, Level::Stupid);
    p.play_turn(&mut c);
    assert_eq!(c.get_content(3, 3), Cell::X);
    assert!(!c.can_continue());
}

#[test]
fn normal_completes_own_pair() {
    let mut c = Controller::new();
    play(&mut c, &[(1, 1), (1, 3), (2, 1), (2, 3)]);
    assert_eq!(ComputerPlayer::normal_play(&c, Cell::X), Some((3, 1)));
    let p = computer(Cell::X, Level::Normal);
    p.play_turn(&mut c);
    assert_eq!(c.get_content(3, 1), Cell::X);
    assert_eq!(c.get_winner(), Cell::X);
}

#[test]
fn normal_blocks_opponent_pair() {
    let mut c = Controller::new();
    play(&mut c, &[(1, 2), (1, 1), (3, 3), (2, 1)]);
    assert_eq!(ComputerPlayer::normal_play(&c, Cell::X), None);
    assert_eq!(ComputerPlayer::normal_play(&c, Cell::O), Some((3, 1)));
    let p = computer(Cell::X, Level::Normal);
    p.play_turn(&mut c);
    assert_eq!(c.get_content(3, 1), Cell::X);
    assert_eq!(c.get_player_turn(), Cell::O);
}

#[test]
fn normal_extends_pair_backwards_and_fills_gaps() {
    let mut c = Controller::new();
    play(&mut c, &[(2, 1), (1, 2), (3, 1), (3, 3)]);
    // X at (2, 1) and (3, 1): nothing below, so the square above.
    assert_eq!(ComputerPlayer::normal_play(&c, Cell::X), Some((1, 1)));
    let mut g = Controller::new();
    play(&mut g, &[(1, 1), (2, 2), (1, 3), (3, 2)]);
    // X at (1, 1) and (1, 3): the gap between them.
    assert_eq!(ComputerPlayer::normal_play(&g, Cell::X), Some((1, 2)));
}

#[test]
fn normal_diagonal_patterns() {
    let mut c = Controller::new();
    play(&mut c, &[(1, 1), (1, 2), (3, 3), (2, 1)]);
    // X in two opposite corners, center empty.
    assert_eq!(ComputerPlayer::normal_play(&c, Cell::X), Some((2, 2)));
    let mut d = Controller::new();
    play(&mut d, &[(1, 3), (1, 2), (3, 1), (2, 1)]);
    assert_eq!(ComputerPlayer::normal_play(&d, Cell::X), Some((2, 2)));
    let e = Controller::new();
    assert_eq!(ComputerPlayer::normal_play(&e, Cell::X), None);
}

#[test]
fn smart_takes_center_on_empty_board() {
    let c = Controller::new();
    let p = computer(Cell::X, Level::Smart);
    assert_eq!(p.smart_play(&c), Some((2, 2)));
    let mut c = c;
    p.play_turn(&mut c);
    assert_eq!(c.get_content(2, 2), Cell::X);
    assert_eq!(c.get_player_turn(), Cell::O);
}

#[test]
fn smart_with_own_center_and_empty_corners_takes_free_corner() {
    let mut c = Controller::new();
    play(&mut c, &[(2, 2), (2, 1)]);
    let p = computer(Cell::X, Level::Smart);
    assert_eq!(p.smart_play(&c), Some((1, 1)));
    let before = snapshot(&c);
    p.play_turn(&mut c);
    assert_eq!(before[0], Cell::Empty);
    assert_eq!(c.get_content(1, 1), Cell::X);
}

#[test]
fn smart_defends_corner_trap() {
    // Computer O holds the center; X holds two opposite corners.
    let mut c = Controller::new();
    play(&mut c, &[(1, 1), (2, 2), (3, 3)]);
    let p = computer(Cell::O, Level::Smart);
    assert_eq!(p.smart_play(&c), Some((3, 2)));
    p.play_turn(&mut c);
    assert_eq!(c.get_content(3, 2), Cell::O);
}

#[test]
fn smart_abstains_without_center() {
    // X (computer O's opponent) took the center; O holds a corner, X the opposite one.
    let mut c = Controller::new();
    play(&mut c, &[(2, 2), (1, 1), (3, 3)]);
    let p = computer(Cell::O, Level::Smart);
    // Own corner with the other two taken: the second-strategy defence.
    assert_eq!(p.smart_play(&c), Some((3, 1)));
    let mut d = Controller::new();
    play(&mut d, &[(2, 2), (2, 1), (1, 1)]);
    assert_eq!(p.smart_play(&d), None);
}

#[test]
fn smart_attack_from_corner() {
    // Computer X holds center and top-left; O sits at (1, 2).
    let mut c = Controller::new();
    play(&mut c, &[(2, 2), (1, 2), (1, 1), (3, 3)]);
    let p = computer(Cell::X, Level::Smart);
    // Only (3, 3) of the corners is O's, center is X's: the first attack rule.
    assert_eq!(p.smart_play(&c), Some((3, 1)));
}

#[test]
fn smart_prefers_winning_over_blocking() {
    let mut c = Controller::new();
    play(&mut c, &[(1, 1), (1, 3), (2, 1), (2, 3)]);
    let p = computer(Cell::X, Level::Smart);
    p.play_turn(&mut c);
    assert_eq!(c.get_content(3, 1), Cell::X);
    assert_eq!(c.get_content(3, 3), Cell::Empty);
}
