use hitair::anime::{artist_matches, theme_label};
use hitair::audio::strip_id3v2;
use hitair::changelog::{for_version, releases, releases_from};
use hitair::config::{Category, CategorySource};
use hitair::session::{menu_items, number_text, parse_playlist_ref, MenuItem};
use hitair::ui::{clip, plural, truncate};
use hitair::update::{asset_for, asset_slug_for, is_newer, semver_tuple, CURRENT_VERSION};

#[test]
fn theme_labels() {
    assert_eq!(theme_label("OP1"), "Opening 1");
    assert_eq!(theme_label("ED2"), "Ending 2");
    assert_eq!(theme_label("OP1-AdventPremium"), "Opening 1");
    assert_eq!(theme_label("OP"), "Opening");
}

#[test]
fn theme_label_passes_other_slugs_through() {
    assert_eq!(theme_label("IN3-v2"), "IN3");
    assert_eq!(theme_label(""), "");
}

#[test]
fn anime_artist_matching() {
    assert!(artist_matches("LiSA", "lisa"));
    assert!(artist_matches("Linked Horizon", "linkedhorizon"));
    assert!(!artist_matches("", "lisa"));
    assert!(!artist_matches("Aimer", "LiSA"));
}

#[test]
fn parses_released_sections_newest_first() {
    let rels = releases();
    assert!(!rels.is_empty(), "changelog should have releases");
    assert!(!rels.iter().any(|r| r.version.eq_ignore_ascii_case("unreleased")));
    assert_eq!(rels[0].version, CURRENT_VERSION);
    assert!(rels[0].body.contains('-'));
    assert!(!rels[0].body.contains("**"));
}

#[test]
fn changelog_sections_parse() {
    let raw = "# T\r\n## [Unreleased]\n- x\n## [1.2.0] - 2024-01-01\n- **bold** item\n## [1.1.0]\n\n## [1.0.0]\nbody";
    let rels = releases_from(raw);
    assert_eq!(rels.len(), 2);
    assert_eq!(rels[0].version, "1.2.0");
    assert_eq!(rels[0].date, "2024-01-01");
    assert_eq!(rels[0].body, "- bold item\n");
    assert_eq!(rels[1].version, "1.0.0");
    assert_eq!(rels[1].date, "");
    assert!(for_version(CURRENT_VERSION).is_some());
    assert!(for_version("0.0.0-none").is_none());
}

#[test]
fn parses_playlist_refs() {
    assert_eq!(parse_playlist_ref("867825522"), Some(867825522));
    assert_eq!(parse_playlist_ref("12345"), None);
    assert_eq!(parse_playlist_ref("rock"), None);
    assert_eq!(parse_playlist_ref("80s"), None);
    assert_eq!(
        parse_playlist_ref("https://www.deezer.com/en/playlist/908622995"),
        Some(908622995)
    );
    assert_eq!(parse_playlist_ref("playlist/867825522"), Some(867825522));
}

#[test]
fn playlist_ref_edge_cases() {
    assert_eq!(parse_playlist_ref("  123456  "), Some(123456));
    assert_eq!(parse_playlist_ref("99999999999999999999"), None);
    assert_eq!(parse_playlist_ref("playlist/abc"), None);
    assert_eq!(parse_playlist_ref("playlist/12x"), Some(12));
}

#[test]
fn menu_lists_custom_playlist_then_matches() {
    let cats = vec![Category::chart("Rock", 152), Category::playlist("80s Hits", 867825522)];
    let items = menu_items(&cats, " ROCK ");
    assert_eq!(items.len(), 1);
    assert_eq!(items[0].label(), "Rock");
    let items = menu_items(&cats, "908622995");
    assert_eq!(items.len(), 1);
    assert_eq!(items[0].label(), "▶ Play Deezer playlist 908622995");
    let cat = match menu_items(&cats, "908622995").into_iter().next().unwrap() {
        m @ MenuItem::CustomPlaylist(_) => m.into_category(),
        _ => panic!("expected a custom playlist"),
    };
    assert_eq!(cat.name, "Playlist 908622995");
    assert!(matches!(cat.source, CategorySource::Playlist(908622995)));
    assert_eq!(menu_items(&cats, "").len(), 2);
    assert_eq!(number_text(-42), "-42");
    assert_eq!(number_text(i64::MIN), "-9223372036854775808");
}

#[test]
fn update_version_comparison() {
    assert!(is_newer("0.2.1", "0.3.0"));
    assert!(is_newer("0.2.1", "0.2.2"));
    assert!(is_newer("0.9.9", "1.0.0"));
    assert!(!is_newer("0.2.1", "0.2.1"));
    assert!(!is_newer("0.3.0", "0.2.9"));
}

#[test]
fn version_comparison() {
    assert!(is_newer("0.2.1", "0.3.0"));
    assert!(is_newer("0.2.1", "0.2.2"));
    assert!(is_newer("0.9.9", "1.0.0"));
    assert!(!is_newer("0.2.1", "0.2.1"));
    assert!(!is_newer("0.3.0", "0.2.9"));
}

#[test]
fn slug_is_one_we_publish() {
    for os in ["linux", "macos", "windows", "freebsd"] {
        for arch in ["x86_64", "aarch64", "riscv64"] {
            if let Some(s) = asset_slug_for(os, arch) {
                assert!(matches!(
                    s,
                    "linux-x86_64"
                        | "linux-aarch64"
                        | "macos-arm64"
                        | "macos-x86_64"
                        | "windows-x86_64"
                ));
            }
        }
    }
}

#[test]
fn update_slug_is_one_we_publish() {
    assert_eq!(asset_slug_for("linux", "x86_64"), Some("linux-x86_64"));
    assert_eq!(asset_slug_for("linux", "aarch64"), Some("linux-aarch64"));
    assert_eq!(asset_slug_for("macos", "aarch64"), Some("macos-arm64"));
    assert_eq!(asset_slug_for("macos", "x86_64"), Some("macos-x86_64"));
    assert_eq!(asset_slug_for("windows", "x86_64"), Some("windows-x86_64"));
    assert_eq!(asset_slug_for("windows", "aarch64"), None);
}

#[test]
fn semver_parsing_is_lenient() {
    assert_eq!(semver_tuple("1.2.3"), (1, 2, 3));
    assert_eq!(semver_tuple(" 1 . 2 .x"), (1, 2, 0));
    assert_eq!(semver_tuple("7"), (7, 0, 0));
    assert_eq!(semver_tuple("+4.5.6.7"), (4, 5, 6));
    assert_eq!(semver_tuple("18446744073709551616.1"), (0, 1, 0));
}

#[test]
fn asset_names() {
    assert_eq!(asset_slug_for("linux", "x86_64"), Some("linux-x86_64"));
    assert_eq!(asset_slug_for("macos", "aarch64"), Some("macos-arm64"));
    assert_eq!(asset_slug_for("freebsd", "x86_64"), None);
    let (a, b) = asset_for("hitair-gui", "windows-x86_64", true);
    assert_eq!(a, "hitair-gui-windows-x86_64.zip");
    assert_eq!(b, "hitair-gui.exe");
    let (a, b) = asset_for("hitair", "linux-x86_64", false);
    assert_eq!(a, "hitair-linux-x86_64.tar.gz");
    assert_eq!(b, "hitair");
}

#[test]
fn id3_tags_are_stripped() {
    let mut tagged = vec![b'I', b'D', b'3', 4, 0, 0, 0, 0, 0, 2];
    tagged.extend_from_slice(&[9, 9, 0xff, 0xfb]);
    assert_eq!(strip_id3v2(&tagged), &[0xff, 0xfb]);
    let mut footer = vec![b'I', b'D', b'3', 4, 0, 0x10, 0, 0, 0, 0];
    footer.extend_from_slice(&[0u8; 10]);
    footer.push(7);
    assert_eq!(strip_id3v2(&footer), &[7]);
    let short = [b'I', b'D', b'3', 4, 0, 0, 0, 0, 1, 0];
    assert_eq!(strip_id3v2(&short), &short);
    assert_eq!(strip_id3v2(b"abc"), b"abc");
}

#[test]
fn clipping_and_plurals() {
    assert_eq!(clip("hello", 5), "hello");
    assert_eq!(clip("hello world", 5), "hell…");
    assert_eq!(truncate("héllo", 2), "h…");
    assert_eq!(clip("ab", 0), "…");
    assert_eq!(plural("round", "rounds", 1), "round");
    assert_eq!(plural("round", "rounds", 2), "rounds");
}
