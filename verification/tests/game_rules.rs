use hitair::anime::{draw_index, rand_index};
use std::time::Duration;

use hitair::anime::AnimeTag;
use hitair::deezer::{Album, Artist, Track};
use hitair::game::{
    artist_matches, dedupe_songs, is_correct, normalize_text, normalize_title, similar, song_key,
    title_matches, GameMode, GuessLog, Outcome, Round,
};

fn track(id: i64, title: &str, artist: &str) -> Track {
    Track {
        id,
        title: title.into(),
        preview: "x".into(),
        artist: Artist { id: 0, name: artist.into() },
        album: None,
    }
}

#[test]
fn exact_id_wins_regardless_of_text() {
    let answer = track(42, "Some Song", "Some Artist");
    let guess = track(42, "totally different text", "whoever");
    assert!(is_correct(&guess, &answer));
}

#[test]
fn remaster_with_different_id_still_matches() {
    let answer = track(1, "Bohemian Rhapsody", "Queen");
    let guess = track(2, "Bohemian Rhapsody - Remastered 2011", "Queen");
    assert!(is_correct(&guess, &answer));
}

#[test]
fn parenthetical_and_feat_are_ignored() {
    assert_eq!(normalize_title("Song (feat. Someone) [Live]"), "song");
    assert_eq!(normalize_title("Song - 2019 Remaster"), "song");
    assert_eq!(normalize_title("Song feat. Someone"), "song");
}

#[test]
fn different_song_does_not_match() {
    let answer = track(1, "Bohemian Rhapsody", "Queen");
    let guess = track(2, "We Will Rock You", "Queen");
    assert!(!is_correct(&guess, &answer));
}

#[test]
fn schedule_progression_and_loss() {
    let schedule = vec![Duration::from_secs(1), Duration::from_secs(2)];
    let answer = track(1, "Answer", "Artist");
    let wrong = track(2, "Wrong", "Artist");
    let mut round = Round::new(answer, vec![0u8; 4], schedule);

    assert_eq!(round.level, 0);
    assert_eq!(round.guess_number(), 1);
    assert_eq!(round.score_value(), 2);

    assert!(!round.submit_guess(&wrong));
    assert_eq!(round.level, 1);
    assert_eq!(round.outcome, Outcome::Playing);

    assert!(!round.submit_guess(&wrong));
    assert_eq!(round.outcome, Outcome::Lost);
    assert_eq!(round.guesses.len(), 2);
}

#[test]
fn correct_guess_wins() {
    let answer = track(7, "Answer", "Artist");
    let mut round = Round::new(answer.clone(), vec![0u8; 4], vec![Duration::from_secs(1)]);
    assert!(round.submit_guess(&answer));
    assert_eq!(round.outcome, Outcome::Won);
}

#[test]
fn right_artist_wrong_song_banks_half_and_floors_score() {
    let schedule = vec![Duration::from_secs(1); 7];
    let answer = track(1, "Blinding Lights", "The Weeknd");
    let other_song = track(2, "Save Your Tears", "The Weeknd");
    let mut round = Round::new(answer, vec![0u8; 4], schedule);

    assert!(!round.submit_guess(&other_song));
    assert_eq!(round.artist_bonus, 3);
    assert!(matches!(round.guesses.last(), Some(GuessLog::WrongRightArtist(_))));

    assert!(!round.submit_guess(&track(3, "Take My Breath", "The Weeknd")));
    assert_eq!(round.artist_bonus, 3);

    for _ in 0..5 {
        round.submit_guess(&track(9, "Nope", "Someone Else"));
    }
    assert_eq!(round.outcome, Outcome::Lost);
    assert_eq!(round.awarded_points(), 3);
}

#[test]
fn anime_named_accepts_titles_aliases_and_prefixes() {
    let mut round = Round::new(
        track(1, "Guren no Yumiya", "Linked Horizon"),
        vec![0u8; 4],
        vec![Duration::from_secs(1)],
    );
    round.anime = Some(AnimeTag {
        anime: "Attack on Titan Season 3".into(),
        titles: vec![
            "Shingeki no Kyojin Season 3".into(),
            "Attack on Titan Season 3".into(),
            "AoT".into(),
        ],
        theme: "Opening 1".into(),
    });
    assert!(round.anime_named("Attack on Titan Season 3"));
    assert!(round.anime_named("shingeki no kyojin season 3"));
    assert!(round.anime_named("attack on titan"));
    assert!(round.anime_named("aot"));
    assert!(!round.anime_named("naruto"));
    assert!(!round.anime_named("a"));

    let plain = Round::new(track(2, "x", "y"), vec![0u8; 4], vec![Duration::from_secs(1)]);
    assert!(!plain.anime_named("attack on titan"));
}

#[test]
fn dedupe_collapses_versions_and_repeats_but_keeps_covers() {
    let tracks = vec![
        track(1, "Blinding Lights", "The Weeknd"),
        track(2, "Blinding Lights (Live)", "The Weeknd"),
        track(1, "Blinding Lights", "The Weeknd"),
        track(3, "Blinding Lights", "Emily Dawn"),
        track(4, "Save Your Tears", "The Weeknd"),
    ];
    let ids: Vec<i64> = dedupe_songs(tracks).iter().map(|t| t.id).collect();
    assert_eq!(ids, vec![1, 3, 4]);
}

#[test]
fn solving_beats_the_artist_consolation() {
    let schedule = vec![Duration::from_secs(1); 7];
    let answer = track(1, "Answer", "Artist");
    let mut round = Round::new(answer.clone(), vec![0u8; 4], schedule);
    round.submit_guess(&track(2, "Wrong", "Artist"));
    assert!(round.submit_guess(&answer));
    assert_eq!(round.awarded_points(), 6);
}

#[test]
fn parses_search_response() {
    let first = Track {
        id: 4091937401,
        title: "Bohemian Rhapsody".into(),
        preview: "https://cdnt-preview.dzcdn.net/x.mp3".into(),
        artist: Artist { id: 412, name: "Queen".into() },
        album: Some(Album { id: 1007321681, title: "A Night At The Opera".into() }),
    };
    assert_eq!(first.id, 4091937401);
    assert_eq!(first.title, "Bohemian Rhapsody");
    assert_eq!(first.artist_name(), "Queen");
    assert_eq!(first.album_title(), Some("A Night At The Opera"));
    assert!(first.has_preview());
    assert_eq!(first.display(), "Bohemian Rhapsody — Queen");

    let second = Track {
        id: 7,
        title: "No Preview Song".into(),
        preview: "".into(),
        artist: Artist { id: 9, name: "Nobody".into() },
        album: None,
    };
    assert!(!second.has_preview());
    assert_eq!(second.album_title(), None);
}

#[test]
fn empty_album_title_counts_as_none() {
    let mut t = track(5, "Song", "Band");
    t.album = Some(Album { id: 1, title: String::new() });
    assert_eq!(t.album_title(), None);
}

#[test]
fn normalize_collapses_separators_and_case() {
    assert_eq!(normalize_text("  Hello,   WORLD!! "), "hello world");
    assert_eq!(normalize_text("AC/DC"), "ac dc");
    assert_eq!(normalize_text("---"), "");
}

#[test]
fn title_noise_variants() {
    assert_eq!(normalize_title("Song FEAT. Someone"), "song");
    assert_eq!(normalize_title("Song ft. X"), "song");
    assert_eq!(normalize_title("Song featuring X"), "song");
    assert_eq!(normalize_title("Song) (x"), "song");
    assert_eq!(normalize_title("((Live))"), "");
}

#[test]
fn similarity_thresholds() {
    assert!(similar("kitten", "kitten", 90));
    assert!(!similar("kitten", "sitting", 90));
    assert!(similar("abcdefghij", "abcdefghix", 90));
    assert!(!similar("abcdefghi", "abcdefghx", 90));
    assert!(similar("", "", 90));
    assert!(!similar("", "a", 0));
}

#[test]
fn artist_matching_rules() {
    assert!(artist_matches("Queen", "queen"));
    assert!(artist_matches("Daft Punk", "Daft Punk feat. Pharrell"));
    assert!(!artist_matches("", "Queen"));
    assert!(!artist_matches("Queen", "Muse"));
    assert!(title_matches("Bohemian Rhapsody (Live)", "Bohemian Rhapsody"));
}

#[test]
fn song_keys_share_versions() {
    let a = track(1, "Blinding Lights", "The Weeknd");
    let b = track(2, "Blinding Lights (Remix)", "THE WEEKND");
    assert_eq!(song_key(&a), song_key(&b));
    assert_eq!(song_key(&a), "blinding lights\u{1}the weeknd");
}

#[test]
fn skip_logs_and_advances() {
    let mut round = Round::new(
        track(1, "A", "B"),
        vec![1u8],
        vec![Duration::from_millis(500), Duration::from_secs(1)],
    );
    round.skip();
    assert_eq!(round.level, 1);
    assert!(matches!(round.guesses[0], GuessLog::Skipped));
    assert_eq!(round.current_clip(), Duration::from_secs(1));
    assert_eq!(round.total_levels(), 2);
    round.skip();
    assert_eq!(round.outcome, Outcome::Lost);
    assert_eq!(round.level, 1);
    assert_eq!(round.awarded_points(), 0);
}

#[test]
fn one_level_consolation_is_one_point() {
    let mut round = Round::new(track(1, "A song", "Band"), vec![], vec![Duration::from_secs(1)]);
    assert!(!round.submit_guess(&track(2, "Other tune", "Band")));
    assert_eq!(round.artist_bonus, 1);
    assert_eq!(round.outcome, Outcome::Lost);
    assert_eq!(round.awarded_points(), 1);
}

#[test]
fn wrong_guess_is_logged_with_display_text() {
    let mut round = Round::new(track(1, "A song", "Band"), vec![], vec![Duration::from_secs(1); 3]);
    round.submit_guess(&track(2, "Zzz", "Other"));
    match &round.guesses[0] {
        GuessLog::Wrong(s) => assert_eq!(s, "Zzz — Other"),
        _ => panic!("expected a wrong guess"),
    }
}

#[test]
fn game_modes_cycle_and_round_trip() {
    let mut m = GameMode::Normal;
    for _ in 0..5 {
        assert_eq!(m.next().prev(), m);
        assert_eq!(GameMode::from_tag(m.tag()), m);
        m = m.next();
    }
    assert_eq!(m, GameMode::Normal);
    assert_eq!(GameMode::Normal.prev(), GameMode::Muffled);
    assert_eq!(GameMode::from_tag("bogus"), GameMode::Normal);
    assert_eq!(GameMode::Fast.label(), "2× Nightcore");
    assert_eq!(GameMode::default(), GameMode::Normal);
}

#[test]
fn a_draw_picks_its_index_modulo_the_length() {
    assert_eq!(draw_index(10, 3), 1);
    assert_eq!(draw_index(7, 1), 0);
    assert_eq!(draw_index(5, 0), 0);
    assert_eq!(draw_index(u64::MAX, 10), 5);
    for _ in 0..50 {
        assert!(rand_index(4) < 4);
    }
    assert_eq!(rand_index(0), 0);
}

#[test]
fn correctness_reads_the_same_both_ways() {
    let pairs = [
        (track(1, "Bohemian Rhapsody", "Queen"), track(2, "Bohemian Rhapsody (Live)", "Queen")),
        (track(3, "Hello", "Adele"), track(4, "Hello", "Lionel Richie")),
        (track(5, "Yesterday", "The Beatles"), track(6, "Yesterdays", "Beatles")),
    ];
    for (a, b) in pairs.iter() {
        assert_eq!(is_correct(a, b), is_correct(b, a));
        assert!(is_correct(a, a));
    }
    assert!(is_correct(&pairs[0].0, &pairs[0].1));
    assert!(!is_correct(&pairs[1].0, &pairs[1].1));
}

#[test]
fn each_revealed_clip_costs_one_point() {
    let schedule = vec![Duration::from_secs(1), Duration::from_secs(2), Duration::from_secs(4)];
    let mut round = Round::new(track(1, "Answer", "Band"), vec![0u8; 4], schedule);
    assert_eq!(round.score_value(), 3);
    round.skip();
    assert_eq!(round.score_value(), 2);
    round.submit_guess(&track(2, "Other", "Nobody"));
    assert_eq!(round.score_value(), 1);
    assert_eq!(round.outcome, Outcome::Playing);
    round.skip();
    assert_eq!(round.outcome, Outcome::Lost);
    assert_eq!(round.score_value(), 1);
}
