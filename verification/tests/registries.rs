use maypaper::endpoint::{default_socket_path, socket_path};
use maypaper::names::{copy_names, first_position};
use maypaper::served::{served_entry, server_root};
use maypaper::{Acquired, ConnectorSnapshot, ContentRef, LeaseManager, SessionState};

fn s(text: &str) -> String {
    text.to_string()
}

#[test]
fn session_set_hands_back_the_previous_content() {
    let mut sessions = SessionState::new();
    assert_eq!(sessions.len(), 0);
    assert_eq!(sessions.get("eDP-1"), ContentRef::Unset);
    assert_eq!(sessions.set("eDP-1", ContentRef::Url(s("https://a"))), ContentRef::Unset);
    assert_eq!(
        sessions.set("eDP-1", ContentRef::LocalPath(s("/pics"))),
        ContentRef::Url(s("https://a"))
    );
    assert_eq!(sessions.set("HDMI-1", ContentRef::Unset), ContentRef::Unset);
    assert_eq!(sessions.get("eDP-1"), ContentRef::LocalPath(s("/pics")));
    assert_eq!(sessions.get("HDMI-1"), ContentRef::Unset);
    assert_eq!(sessions.len(), 2);
    assert_eq!(sessions.get("eDP-1").clone(), ContentRef::LocalPath(s("/pics")));
}

#[test]
fn first_acquisition_starts_a_lease() {
    let mut leases = LeaseManager::new();
    assert_eq!(leases.acquire("/pics", "eDP-1"), Acquired::Started);
    assert_eq!(leases.len(), 1);
    assert_eq!(leases.count("/pics"), 1);
    assert_eq!(leases.address("/pics"), None);
    assert_eq!(leases.holders("/pics"), vec![s("eDP-1")]);
}

#[test]
fn later_acquisitions_share_the_lease() {
    let mut leases = LeaseManager::new();
    leases.acquire("/pics", "eDP-1");
    assert_eq!(leases.acquire("/pics", "HDMI-1"), Acquired::Joined);
    assert_eq!(leases.server_started("/pics", "http://127.0.0.1:4100/"), vec![s("eDP-1"), s("HDMI-1")]);
    assert_eq!(leases.acquire("/pics", "DP-3"), Acquired::Ready(s("http://127.0.0.1:4100/")));
    assert_eq!(leases.len(), 1);
    assert_eq!(leases.count("/pics"), 3);
    assert_eq!(leases.address("/pics"), Some(s("http://127.0.0.1:4100/")));
    assert_eq!(leases.holders("/pics"), vec![s("eDP-1"), s("HDMI-1"), s("DP-3")]);
    assert_eq!(leases.acquire("/other", "DP-3"), Acquired::Started);
    assert_eq!(leases.len(), 2);
}

#[test]
fn last_release_removes_the_lease() {
    let mut leases = LeaseManager::new();
    leases.acquire("/pics", "eDP-1");
    leases.acquire("/pics", "HDMI-1");
    leases.server_started("/pics", "http://127.0.0.1:4100/");
    assert!(!leases.release("/pics", "eDP-1"));
    assert_eq!(leases.count("/pics"), 1);
    assert_eq!(leases.holders("/pics"), vec![s("HDMI-1")]);
    assert!(leases.release("/pics", "HDMI-1"));
    assert_eq!(leases.count("/pics"), 0);
    assert_eq!(leases.len(), 0);
    assert_eq!(leases.address("/pics"), None);
}

#[test]
fn release_without_a_matching_lease_does_nothing() {
    let mut leases = LeaseManager::new();
    assert!(!leases.release("/pics", "eDP-1"));
    leases.acquire("/pics", "eDP-1");
    assert!(!leases.release("/other", "eDP-1"));
    assert!(!leases.release("/pics", "HDMI-1"));
    assert_eq!(leases.count("/pics"), 1);
    assert!(leases.release("/pics", "eDP-1"));
    assert!(!leases.release("/pics", "eDP-1"));
    assert_eq!(leases.len(), 0);
}

#[test]
fn release_detaches_one_acquisition_at_a_time() {
    let mut leases = LeaseManager::new();
    leases.acquire("/pics", "eDP-1");
    leases.acquire("/pics", "HDMI-1");
    leases.acquire("/pics", "eDP-1");
    assert_eq!(leases.count("/pics"), 3);
    assert!(!leases.release("/pics", "eDP-1"));
    assert_eq!(leases.holders("/pics"), vec![s("HDMI-1"), s("eDP-1")]);
}

#[test]
fn failed_start_removes_the_lease() {
    let mut leases = LeaseManager::new();
    leases.acquire("/pics", "eDP-1");
    leases.acquire("/pics", "HDMI-1");
    assert_eq!(leases.server_failed("/pics"), vec![s("eDP-1"), s("HDMI-1")]);
    assert_eq!(leases.len(), 0);
    assert!(leases.server_failed("/pics").is_empty());
    assert!(leases.server_started("/pics", "http://127.0.0.1:4100/").is_empty());
    assert_eq!(leases.len(), 0);
}

#[test]
fn reports_for_a_running_server_change_nothing() {
    let mut leases = LeaseManager::new();
    leases.acquire("/pics", "eDP-1");
    leases.server_started("/pics", "http://127.0.0.1:4100/");
    assert!(leases.server_started("/pics", "http://127.0.0.1:9/").is_empty());
    assert!(leases.server_failed("/pics").is_empty());
    assert_eq!(leases.address("/pics"), Some(s("http://127.0.0.1:4100/")));
    assert_eq!(leases.count("/pics"), 1);
}

#[test]
fn snapshot_keeps_first_occurrences() {
    let snapshot = ConnectorSnapshot::new(vec![s("b"), s("a"), s("b"), s("c"), s("a")]);
    assert_eq!(snapshot.connectors(), vec![s("b"), s("a"), s("c")]);
    assert_eq!(snapshot.len(), 3);
    assert!(snapshot.contains("c"));
    assert!(!snapshot.contains("d"));
    let empty = ConnectorSnapshot::empty();
    assert_eq!(empty.len(), 0);
    assert!(empty.connectors().is_empty());
    assert!(!empty.contains("a"));
}

#[test]
fn names_are_found_and_copied() {
    let list = vec![s("a"), s("b"), s("a")];
    assert_eq!(first_position(&list, &s("a")), Some(0));
    assert_eq!(first_position(&list, &s("b")), Some(1));
    assert_eq!(first_position(&list, &s("c")), None);
    assert_eq!(copy_names(&list), list);
}

#[test]
fn socket_is_configured_or_default() {
    assert_eq!(default_socket_path("/run/user/1000"), "/run/user/1000/maypaper.sock");
    assert_eq!(socket_path(None, "/run/user/1000"), "/run/user/1000/maypaper.sock");
    assert_eq!(socket_path(Some(s("/tmp/other.sock")), "/run/user/1000"), "/tmp/other.sock");
}

#[test]
fn server_is_rooted_at_the_containing_directory_of_a_file() {
    assert_eq!(server_root("/pics/a.png", true), "/pics");
    assert_eq!(served_entry("/pics/a.png", true), "a.png");
    assert_eq!(server_root("/pics/a.png", false), "/pics/a.png");
    assert_eq!(served_entry("/pics/a.png", false), "");
    assert_eq!(server_root("/a.png", true), "/");
    assert_eq!(served_entry("/a.png", true), "a.png");
    assert_eq!(server_root("a.png", true), ".");
    assert_eq!(served_entry("a.png", true), "a.png");
    assert_eq!(server_root("/home/ü/壁紙.png", true), "/home/ü");
    assert_eq!(served_entry("/home/ü/壁紙.png", true), "壁紙.png");
    assert_eq!(server_root("", true), ".");
    assert_eq!(served_entry("", true), "");
}
