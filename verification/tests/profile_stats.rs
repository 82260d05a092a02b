use hitair::profile::{default_name_from, Profile, RoundRecord, MAX_RECENT};

fn rec(category: &str, won: bool, points: u32) -> RoundRecord {
    RoundRecord {
        title: "Song".into(),
        artist: "Artist".into(),
        category: category.into(),
        won,
        clips: 2,
        points,
    }
}

#[test]
fn records_totals_streaks_and_categories() {
    let mut p = Profile::default();
    p.record_round(rec("Pop", true, 6));
    p.record_round(rec("Pop", true, 5));
    p.record_round(rec("Rock", false, 0));
    p.record_round(rec("Pop", true, 7));

    assert_eq!(p.stats.rounds, 4);
    assert_eq!(p.stats.wins, 3);
    assert_eq!(p.stats.total_points, 18);
    assert_eq!(p.stats.best_streak, 2);
    assert_eq!(p.stats.current_streak, 1);
    assert_eq!(p.stats.category("Pop").unwrap().rounds, 3);
    assert_eq!(p.stats.category("Pop").unwrap().wins, 3);
    assert_eq!(p.stats.category("Rock").unwrap().wins, 0);
    assert_eq!(p.stats.recent.first().unwrap().category, "Pop");
    assert_eq!(p.stats.recent.len(), 4);
}

#[test]
fn best_category_needs_enough_rounds() {
    let mut p = Profile::default();
    p.record_round(rec("Rock", true, 7));
    for won in [true, true, false] {
        p.record_round(rec("Pop", won, if won { 5 } else { 0 }));
    }
    assert_eq!(p.stats.best_category().map(|(n, _)| n), Some("Pop"));
}

#[test]
fn recent_is_capped() {
    let mut p = Profile::default();
    for _ in 0..(MAX_RECENT + 10) {
        p.record_round(rec("Pop", true, 1));
    }
    assert_eq!(p.stats.recent.len(), MAX_RECENT);
}

#[test]
fn best_category_prefers_rate_then_rounds() {
    let mut p = Profile::default();
    for won in [true, false, false] {
        p.record_round(rec("Jazz", won, 1));
    }
    for won in [true, true, false, false, false, false] {
        p.record_round(rec("Metal", won, 1));
    }
    // Same 1/3 win rate: more rounds wins.
    assert_eq!(p.stats.best_category().map(|(n, _)| n), Some("Metal"));
    for _ in 0..3 {
        p.record_round(rec("Pop", true, 1));
    }
    assert_eq!(p.stats.best_category().map(|(n, _)| n), Some("Pop"));
    assert!(Profile::default().stats.best_category().is_none());
}

#[test]
fn record_at_stamps_time_and_resets_streak() {
    let mut p = Profile::with_name("Zoe".into());
    assert_eq!(p.accent, "coral");
    p.record_round_at(rec("Pop", true, 3), 1234);
    p.record_round_at(rec("Pop", false, 1), 1300);
    assert_eq!(p.stats.recent[0].at, 1300);
    assert_eq!(p.stats.recent[1].at, 1234);
    assert_eq!(p.stats.current_streak, 0);
    assert_eq!(p.stats.best_streak, 1);
    assert_eq!(p.stats.category("Pop").unwrap().points, 4);
    assert!(p.stats.category("Rock").is_none());
    assert_eq!(p.name, "Zoe");
}

#[test]
fn a_fresh_profile_starts_at_zero() {
    let p = Profile::default();
    assert_eq!(p.name, "player");
    assert_eq!(p.accent, "coral");
    assert_eq!(p.stats.rounds, 0);
    assert_eq!(p.stats.wins, 0);
    assert_eq!(p.stats.total_points, 0);
    assert_eq!(p.stats.best_streak, 0);
    assert_eq!(p.stats.current_streak, 0);
    assert!(p.stats.by_category.is_empty() && p.stats.recent.is_empty());
}

#[test]
fn the_default_name_comes_from_the_os_user() {
    assert_eq!(default_name_from(Some("ana".into()), Some("bo".into())), "ana");
    assert_eq!(default_name_from(None, Some("bo".into())), "bo");
    assert_eq!(default_name_from(Some("  ".into()), Some("bo".into())), "player");
    assert_eq!(default_name_from(None, None), "player");
}
