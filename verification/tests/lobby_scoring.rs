use hitair::lobby::{result_score, round_points, Game, RoundResult};
use hitair::supa::{code_from_draws, generate_code, CODE_LEN};

fn result(name: &str, round: u32, solved: bool, clips: u32, time_ms: u32) -> RoundResult {
    RoundResult {
        round,
        name: name.into(),
        solved,
        clips,
        time_ms,
        mistakes: clips.saturating_sub(1),
        artist_bonus: 0,
    }
}

#[test]
fn points_reward_fewer_clips() {
    assert_eq!(round_points(true, 1, 7), 7);
    assert_eq!(round_points(true, 7, 7), 1);
    assert_eq!(round_points(false, 7, 7), 0);
}

#[test]
fn standings_accumulate_and_rank() {
    let mut g = Game::new(2, 7);
    g.start_round(1);
    assert!(g.on_result(&result("Alice", 1, true, 2, 3000)));
    assert!(g.on_result(&result("Bob", 1, true, 3, 5000)));
    assert!(!g.on_result(&result("Alice", 1, true, 1, 100)));
    assert!(g.round_complete(2));

    g.start_round(2);
    assert!(g.on_result(&result("Bob", 2, true, 1, 2000)));
    assert!(g.on_result(&result("Alice", 2, false, 7, 9000)));
    assert!(g.is_final_round());

    let board = g.standings.ranked();
    assert_eq!(board[0].name, "Bob");
    assert_eq!(board[0].points, 12);
    assert_eq!(board[1].name, "Alice");
    assert_eq!(board[1].points, 6);
}

#[test]
fn codes_are_well_formed() {
    let alphabet: &[u8] = b"ABCDEFGHJKMNPQRSTUVWXYZ23456789";
    for _ in 0..50 {
        let code = generate_code();
        assert_eq!(code.len(), CODE_LEN);
        assert!(code.bytes().all(|b| alphabet.contains(&b)));
    }
}

#[test]
fn points_edge_cases() {
    assert_eq!(round_points(true, 0, 7), 7);
    assert_eq!(round_points(true, 20, 7), 1);
    assert_eq!(round_points(true, 1, 0), 1);
}

#[test]
fn game_clamps_and_ignores_other_rounds() {
    let mut g = Game::new(0, 0);
    assert_eq!(g.rounds, 1);
    assert_eq!(g.max_clips, 1);
    assert_eq!(g.round, 0);
    g.start_round(1);
    assert!(!g.on_result(&result("Ann", 2, true, 1, 10)));
    assert_eq!(g.submitted_count(), 0);
    assert!(g.on_result(&result("Ann", 1, true, 1, 10)));
    assert_eq!(g.submitted_count(), 1);
    assert!(!g.round_complete(2));
    assert!(g.is_final_round());
}

#[test]
fn ties_break_on_time_then_name() {
    let mut g = Game::new(1, 5);
    g.start_round(1);
    assert!(g.on_result(&result("Cid", 1, true, 2, 4000)));
    assert!(g.on_result(&result("Bea", 1, true, 2, 4000)));
    assert!(g.on_result(&result("Abe", 1, true, 2, 5000)));
    let names: Vec<String> = g.standings.ranked().into_iter().map(|s| s.name).collect();
    assert_eq!(names, vec!["Bea", "Cid", "Abe"]);
}

#[test]
fn right_artist_consolation_counts_on_the_board() {
    let mut near = result("Ivo", 1, false, 7, 9000);
    near.artist_bonus = 3;
    assert_eq!(result_score(&near, 7), 3);
    let mut solved = result("Mara", 1, true, 2, 5100);
    solved.artist_bonus = 3;
    assert_eq!(result_score(&solved, 7), 6);
    let mut g = Game::new(2, 7);
    g.start_round(1);
    assert!(g.on_result(&near));
    assert!(g.on_result(&solved));
    let board = g.standings.ranked();
    assert_eq!(board[0].name, "Mara");
    assert_eq!(board[0].points, 6);
    assert_eq!(board[1].name, "Ivo");
    assert_eq!(board[1].points, 3);
    assert_eq!(board[1].solves, 0);
}

#[test]
fn draws_spell_the_code() {
    assert_eq!(code_from_draws(&vec![0, 30, 31, 8, 23, 61]), "A9AJ29");
    assert_eq!(code_from_draws(&vec![u32::MAX; 6]), "DDDDDD");
}
