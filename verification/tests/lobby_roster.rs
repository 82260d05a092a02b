use hitair::lobby::RoundResult;
use hitair::realtime::{ChannelMessage, PresenceJoin, PresenceMeta, Roster};
use hitair::session::control::LobbyEvent;
use hitair::session::lobby_flow::RtEvent;

fn join(key: &str, name: Option<&str>, spectating: bool) -> PresenceJoin {
    PresenceJoin { key: key.into(), name: name.map(String::from), spectating }
}

fn names(evt: &RtEvent) -> Vec<(String, bool)> {
    match evt {
        RtEvent::Presence(es) => es.iter().map(|e| (e.name.clone(), e.spectating)).collect(),
        _ => panic!("expected a roster"),
    }
}

#[test]
fn state_lists_named_members_in_key_order() {
    let mut r = Roster::new();
    let evt = r.on_message(ChannelMessage::PresenceState(vec![
        join("k3", Some("Cleo"), false),
        join("k1", Some("Ana"), false),
        join("k2", None, false),
        join("k0", Some("Late"), true),
    ]));
    assert_eq!(
        names(&evt),
        vec![("Late".into(), true), ("Ana".into(), false), ("Cleo".into(), false)]
    );
}

#[test]
fn a_new_state_replaces_the_roster() {
    let mut r = Roster::new();
    r.on_message(ChannelMessage::PresenceState(vec![join("a", Some("Ana"), false)]));
    let evt = r.on_message(ChannelMessage::PresenceState(vec![join("b", Some("Bo"), false)]));
    assert_eq!(names(&evt), vec![("Bo".into(), false)]);
}

#[test]
fn diffs_add_update_and_remove() {
    let mut r = Roster::new();
    r.on_message(ChannelMessage::PresenceState(vec![
        join("a", Some("Ana"), false),
        join("c", Some("Cleo"), false),
    ]));
    let evt = r.on_message(ChannelMessage::PresenceDiff {
        joins: vec![join("b", Some("Bo"), true), join("a", Some("Ana"), true)],
        leaves: vec!["c".into(), "zz".into()],
    });
    assert_eq!(names(&evt), vec![("Ana".into(), true), ("Bo".into(), true)]);
}

#[test]
fn a_retrack_renames_the_member() {
    let mut r = Roster::new();
    r.record("k1".into(), "Old".into(), false);
    let evt = r.on_message(ChannelMessage::PresenceDiff {
        joins: vec![join("k1", Some("New"), false)],
        leaves: vec!["k1".into()],
    });
    assert_eq!(names(&evt), vec![("New".into(), false)]);
    let order: Vec<String> = r.entries().into_iter().map(|e| e.name).collect();
    assert_eq!(order, vec!["New"]);
}

#[test]
fn keys_order_like_strings() {
    let mut r = Roster::new();
    r.record("ab".into(), "second".into(), false);
    r.record("a".into(), "first".into(), false);
    r.record("b".into(), "third".into(), false);
    r.record("B".into(), "zeroth".into(), false);
    let order: Vec<String> = r.entries().into_iter().map(|e| e.name).collect();
    assert_eq!(order, vec!["zeroth", "first", "second", "third"]);
    r.forget("ab");
    r.forget("nobody");
    let order: Vec<String> = r.entries().into_iter().map(|e| e.name).collect();
    assert_eq!(order, vec!["zeroth", "first", "third"]);
}

#[test]
fn broadcasts_pass_through_untouched() {
    let mut r = Roster::new();
    r.record("a".into(), "Ana".into(), false);
    let result = RoundResult {
        round: 2,
        name: "Ana".into(),
        solved: true,
        clips: 3,
        time_ms: 4200,
        mistakes: 1,
        artist_bonus: 0,
    };
    let evt = r.on_message(ChannelMessage::Broadcast(LobbyEvent::Result(result.clone())));
    assert!(matches!(evt, RtEvent::Broadcast(LobbyEvent::Result(ref got)) if *got == result));
    assert_eq!(r.entries().len(), 1);
}

#[test]
fn the_newest_meta_names_the_member() {
    let metas = vec![
        PresenceMeta { name: Some("Old".into()), spectating: Some(true) },
        PresenceMeta { name: Some("New".into()), spectating: None },
    ];
    let j = PresenceJoin::from_metas("k1".into(), metas);
    assert_eq!(j.key, "k1");
    assert_eq!(j.name.as_deref(), Some("New"));
    assert!(!j.spectating);
    let j = PresenceJoin::from_metas("k2".into(), vec![PresenceMeta { name: None, spectating: Some(true) }]);
    assert!(j.name.is_none() && j.spectating);
    let j = PresenceJoin::from_metas("k3".into(), Vec::new());
    assert!(j.name.is_none() && !j.spectating);
}
