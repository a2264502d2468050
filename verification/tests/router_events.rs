use maypaper::{Action, Command, ContentRef, Event, Router};

fn s(text: &str) -> String {
    text.to_string()
}

fn show(connector: &str, address: &str) -> Action {
    Action::SetWebview { connector: s(connector), address: s(address) }
}

fn two_outputs() -> Router {
    let mut router = Router::new();
    let asked = router.handle_topology(vec![s("eDP-1"), s("HDMI-1")]);
    assert!(asked.is_empty());
    router
}

#[test]
fn new_router_is_empty() {
    let router = Router::new();
    assert!(router.connectors().is_empty());
    assert_eq!(router.lease_total(), 0);
    assert_eq!(router.displayed("eDP-1"), ContentRef::Unset);
    assert_eq!(router.lease_count("/pics/a.png"), 0);
    assert_eq!(router.lease_address("/pics/a.png"), None);
}

#[test]
fn named_url_reaches_one_connector() {
    let mut router = two_outputs();
    let asked = router.handle_request_webview(Some(s("eDP-1")), s("https://example.org"));
    assert_eq!(asked, vec![show("eDP-1", "https://example.org")]);
    assert_eq!(router.displayed("eDP-1"), ContentRef::Url(s("https://example.org")));
    assert_eq!(router.displayed("HDMI-1"), ContentRef::Unset);
}

#[test]
fn named_connector_need_not_be_in_the_snapshot() {
    let mut router = Router::new();
    let asked = router.handle_request_webview(Some(s("DP-3")), s("https://example.org"));
    assert_eq!(asked, vec![show("DP-3", "https://example.org")]);
    assert_eq!(router.displayed("DP-3"), ContentRef::Url(s("https://example.org")));
}

#[test]
fn broadcast_url_reaches_exactly_the_snapshot() {
    let mut router = two_outputs();
    let asked = router.handle_request_webview(None, s("https://example.org"));
    assert_eq!(
        asked,
        vec![show("eDP-1", "https://example.org"), show("HDMI-1", "https://example.org")]
    );
}

#[test]
fn broadcast_with_empty_snapshot_reaches_nobody() {
    let mut router = Router::new();
    assert!(router.handle_request_webview(None, s("https://example.org")).is_empty());
    assert!(router.handle_request_server(None, s("/pics/a.png")).is_empty());
    assert_eq!(router.lease_total(), 0);
}

#[test]
fn resolved_targets_are_a_copy() {
    let mut router = two_outputs();
    let targets = router.resolve_targets(&None);
    router.handle_topology(vec![s("DP-3")]);
    assert_eq!(targets, vec![s("eDP-1"), s("HDMI-1")]);
    assert_eq!(router.resolve_targets(&None), vec![s("DP-3")]);
    assert_eq!(router.resolve_targets(&Some(s("eDP-1"))), vec![s("eDP-1")]);
}

#[test]
fn scenario_broadcast_path_shares_one_lease() {
    let mut router = two_outputs();
    let command = Command::decode("{\"SetPath\":{\"monitor\":null,\"path\":\"/pics/a.png\"}}")
        .expect("the message is a command");
    let asked = router.handle(Event::Command(command));
    assert_eq!(asked, vec![Action::StartServer { path: s("/pics/a.png") }]);
    assert_eq!(router.lease_total(), 1);
    assert_eq!(router.lease_count("/pics/a.png"), 2);
    assert_eq!(router.lease_address("/pics/a.png"), None);

    let asked = router.handle(Event::ServerStarted {
        path: s("/pics/a.png"),
        address: s("http://127.0.0.1:4100/a.png"),
    });
    assert_eq!(
        asked,
        vec![
            show("eDP-1", "http://127.0.0.1:4100/a.png"),
            show("HDMI-1", "http://127.0.0.1:4100/a.png"),
        ]
    );
    assert_eq!(router.lease_total(), 1);
    assert_eq!(router.lease_count("/pics/a.png"), 2);
    assert_eq!(router.lease_address("/pics/a.png"), Some(s("http://127.0.0.1:4100/a.png")));
    assert_eq!(router.displayed("eDP-1"), ContentRef::LocalPath(s("/pics/a.png")));
    assert_eq!(router.displayed("HDMI-1"), ContentRef::LocalPath(s("/pics/a.png")));
}

#[test]
fn scenario_new_path_tears_down_the_old_lease() {
    let mut router = two_outputs();
    router.handle_request_server(Some(s("eDP-1")), s("/pics/a.png"));
    router.handle_server_started(s("/pics/a.png"), s("http://127.0.0.1:4100/a.png"));
    assert_eq!(router.lease_count("/pics/a.png"), 1);

    let asked = router.handle_request_server(Some(s("eDP-1")), s("/pics/b.png"));
    assert_eq!(asked, vec![Action::StartServer { path: s("/pics/b.png") }]);
    assert_eq!(router.lease_count("/pics/b.png"), 1);
    assert_eq!(router.lease_count("/pics/a.png"), 1);
    assert_eq!(router.displayed("eDP-1"), ContentRef::LocalPath(s("/pics/a.png")));

    let asked = router.handle_server_started(s("/pics/b.png"), s("http://127.0.0.1:4101/b.png"));
    assert_eq!(
        asked,
        vec![
            show("eDP-1", "http://127.0.0.1:4101/b.png"),
            Action::StopServer { path: s("/pics/a.png") },
        ]
    );
    assert_eq!(router.lease_count("/pics/a.png"), 0);
    assert_eq!(router.lease_address("/pics/a.png"), None);
    assert_eq!(router.lease_count("/pics/b.png"), 1);
    assert_eq!(router.lease_total(), 1);
    assert_eq!(router.displayed("eDP-1"), ContentRef::LocalPath(s("/pics/b.png")));
}

#[test]
fn scenario_topology_change_does_not_shrink_a_broadcast() {
    let mut router = two_outputs();
    router.handle_request_server(None, s("/pics/a.png"));
    router.handle_topology(vec![s("eDP-1")]);
    assert_eq!(router.connectors(), vec![s("eDP-1")]);
    let asked = router.handle_server_started(s("/pics/a.png"), s("http://127.0.0.1:4100/a.png"));
    assert_eq!(
        asked,
        vec![
            show("eDP-1", "http://127.0.0.1:4100/a.png"),
            show("HDMI-1", "http://127.0.0.1:4100/a.png"),
        ]
    );
    assert_eq!(router.displayed("HDMI-1"), ContentRef::LocalPath(s("/pics/a.png")));
}

#[test]
fn topology_change_does_not_extend_a_broadcast() {
    let mut router = two_outputs();
    router.handle_request_server(None, s("/pics/a.png"));
    router.handle_topology(vec![s("eDP-1"), s("HDMI-1"), s("DP-3")]);
    let asked = router.handle_server_started(s("/pics/a.png"), s("http://127.0.0.1:4100/a.png"));
    assert_eq!(asked.len(), 2);
    assert_eq!(router.displayed("DP-3"), ContentRef::Unset);
    assert_eq!(router.lease_count("/pics/a.png"), 2);
}

#[test]
fn late_reader_sees_only_the_latest_snapshot() {
    let mut router = Router::new();
    router.handle(Event::Topology(vec![s("eDP-1")]));
    router.handle(Event::Topology(vec![s("eDP-1"), s("HDMI-1")]));
    router.handle(Event::Topology(vec![s("DP-3"), s("HDMI-1")]));
    assert_eq!(router.connectors(), vec![s("DP-3"), s("HDMI-1")]);
}

#[test]
fn topology_lists_each_connector_once() {
    let mut router = Router::new();
    router.handle_topology(vec![s("eDP-1"), s("HDMI-1"), s("eDP-1")]);
    assert_eq!(router.connectors(), vec![s("eDP-1"), s("HDMI-1")]);
    let asked = router.handle_request_webview(None, s("https://example.org"));
    assert_eq!(asked.len(), 2);
}

#[test]
fn topology_update_leaves_sessions_and_leases() {
    let mut router = two_outputs();
    router.handle_request_server(None, s("/pics/a.png"));
    router.handle_server_started(s("/pics/a.png"), s("http://127.0.0.1:4100/a.png"));
    let asked = router.handle_topology(vec![]);
    assert!(asked.is_empty());
    assert_eq!(router.displayed("eDP-1"), ContentRef::LocalPath(s("/pics/a.png")));
    assert_eq!(router.displayed("HDMI-1"), ContentRef::LocalPath(s("/pics/a.png")));
    assert_eq!(router.lease_count("/pics/a.png"), 2);
}

#[test]
fn same_url_twice_changes_nothing_the_second_time() {
    let mut router = two_outputs();
    router.handle_request_server(Some(s("eDP-1")), s("/pics/a.png"));
    router.handle_server_started(s("/pics/a.png"), s("http://127.0.0.1:4100/a.png"));

    let first = router.handle_request_webview(Some(s("eDP-1")), s("https://example.org"));
    assert_eq!(
        first,
        vec![show("eDP-1", "https://example.org"), Action::StopServer { path: s("/pics/a.png") }]
    );
    assert_eq!(router.lease_total(), 0);

    let second = router.handle_request_webview(Some(s("eDP-1")), s("https://example.org"));
    assert_eq!(second, vec![show("eDP-1", "https://example.org")]);
    assert_eq!(router.displayed("eDP-1"), ContentRef::Url(s("https://example.org")));
    assert_eq!(router.lease_total(), 0);
}

#[test]
fn same_path_twice_keeps_the_count() {
    let mut router = two_outputs();
    router.handle_request_server(Some(s("eDP-1")), s("/pics/a.png"));
    router.handle_server_started(s("/pics/a.png"), s("http://127.0.0.1:4100/a.png"));
    let asked = router.handle_request_server(Some(s("eDP-1")), s("/pics/a.png"));
    assert_eq!(asked, vec![show("eDP-1", "http://127.0.0.1:4100/a.png")]);
    assert_eq!(router.lease_count("/pics/a.png"), 1);
}

#[test]
fn running_server_is_shared_at_once() {
    let mut router = two_outputs();
    router.handle_request_server(Some(s("eDP-1")), s("/pics/a.png"));
    router.handle_server_started(s("/pics/a.png"), s("http://127.0.0.1:4100/a.png"));
    let asked = router.handle_request_server(Some(s("HDMI-1")), s("/pics/a.png"));
    assert_eq!(asked, vec![show("HDMI-1", "http://127.0.0.1:4100/a.png")]);
    assert_eq!(router.lease_count("/pics/a.png"), 2);
    assert_eq!(router.lease_total(), 1);
}

#[test]
fn late_acquirer_joins_a_starting_server() {
    let mut router = two_outputs();
    let first = router.handle_request_server(Some(s("eDP-1")), s("/pics/a.png"));
    let second = router.handle_request_server(Some(s("HDMI-1")), s("/pics/a.png"));
    assert_eq!(first, vec![Action::StartServer { path: s("/pics/a.png") }]);
    assert!(second.is_empty());
    assert_eq!(router.lease_count("/pics/a.png"), 2);
    let asked = router.handle_server_started(s("/pics/a.png"), s("http://127.0.0.1:4100/a.png"));
    assert_eq!(
        asked,
        vec![
            show("eDP-1", "http://127.0.0.1:4100/a.png"),
            show("HDMI-1", "http://127.0.0.1:4100/a.png"),
        ]
    );
}

#[test]
fn count_follows_the_connectors_that_display_a_path() {
    let mut router = two_outputs();
    router.handle_request_server(None, s("/pics/a.png"));
    router.handle_server_started(s("/pics/a.png"), s("http://127.0.0.1:4100/a.png"));
    assert_eq!(router.lease_count("/pics/a.png"), 2);

    let asked = router.handle_request_webview(Some(s("HDMI-1")), s("https://example.org"));
    assert_eq!(asked, vec![show("HDMI-1", "https://example.org")]);
    assert_eq!(router.lease_count("/pics/a.png"), 1);

    let asked = router.handle_request_webview(Some(s("eDP-1")), s("https://example.org"));
    assert_eq!(
        asked,
        vec![show("eDP-1", "https://example.org"), Action::StopServer { path: s("/pics/a.png") }]
    );
    assert_eq!(router.lease_count("/pics/a.png"), 0);
    assert_eq!(router.lease_total(), 0);
}

#[test]
fn failed_server_leaves_the_previous_reference() {
    let mut router = two_outputs();
    router.handle_request_webview(Some(s("eDP-1")), s("https://example.org"));
    router.handle_request_server(Some(s("eDP-1")), s("/pics/missing"));
    assert_eq!(router.lease_count("/pics/missing"), 1);
    let asked = router.handle(Event::ServerFailed { path: s("/pics/missing") });
    assert!(asked.is_empty());
    assert_eq!(router.lease_total(), 0);
    assert_eq!(router.displayed("eDP-1"), ContentRef::Url(s("https://example.org")));
}

#[test]
fn report_for_an_unknown_server_is_ignored() {
    let mut router = two_outputs();
    assert!(router.handle_server_started(s("/nowhere"), s("http://127.0.0.1:1/")).is_empty());
    assert!(router.handle_server_failed(s("/nowhere")).is_empty());
    assert_eq!(router.lease_total(), 0);
}

#[test]
fn second_report_for_a_running_server_is_ignored() {
    let mut router = two_outputs();
    router.handle_request_server(Some(s("eDP-1")), s("/pics/a.png"));
    router.handle_server_started(s("/pics/a.png"), s("http://127.0.0.1:4100/a.png"));
    assert!(router.handle_server_started(s("/pics/a.png"), s("http://127.0.0.1:9/")).is_empty());
    assert!(router.handle_server_failed(s("/pics/a.png")).is_empty());
    assert_eq!(router.lease_address("/pics/a.png"), Some(s("http://127.0.0.1:4100/a.png")));
    assert_eq!(router.lease_count("/pics/a.png"), 1);
}

#[test]
fn later_command_is_superseded_by_a_pending_path() {
    let mut router = two_outputs();
    router.handle_request_server(Some(s("eDP-1")), s("/pics/a.png"));
    router.handle_request_webview(Some(s("eDP-1")), s("https://example.org"));
    assert_eq!(router.displayed("eDP-1"), ContentRef::Url(s("https://example.org")));
    let asked = router.handle_server_started(s("/pics/a.png"), s("http://127.0.0.1:4100/a.png"));
    assert_eq!(asked, vec![show("eDP-1", "http://127.0.0.1:4100/a.png")]);
    assert_eq!(router.displayed("eDP-1"), ContentRef::LocalPath(s("/pics/a.png")));
    assert_eq!(router.lease_count("/pics/a.png"), 1);
}

#[test]
fn connector_waiting_twice_is_counted_once_when_shown() {
    let mut router = two_outputs();
    router.handle_request_server(Some(s("eDP-1")), s("/pics/a.png"));
    router.handle_request_server(Some(s("eDP-1")), s("/pics/a.png"));
    assert_eq!(router.lease_count("/pics/a.png"), 2);
    let asked = router.handle_server_started(s("/pics/a.png"), s("http://127.0.0.1:4100/a.png"));
    assert_eq!(
        asked,
        vec![
            show("eDP-1", "http://127.0.0.1:4100/a.png"),
            show("eDP-1", "http://127.0.0.1:4100/a.png"),
        ]
    );
    assert_eq!(router.lease_count("/pics/a.png"), 1);
}

#[test]
fn events_and_actions_can_be_copied() {
    let event = Event::Topology(vec![s("eDP-1"), s("HDMI-1")]);
    assert_eq!(event.clone(), event);
    let event = Event::Command(Command::SetUrl { monitor: None, url: s("https://example.org") });
    assert_eq!(event.clone(), event);
    let event = Event::ServerStarted { path: s("/p"), address: s("http://127.0.0.1:1/") };
    assert_eq!(event.clone(), event);
    let event = Event::ServerFailed { path: s("/p") };
    assert_eq!(event.clone(), event);
    let action = show("eDP-1", "https://example.org");
    assert_eq!(action.clone(), action);
    let action = Action::StartServer { path: s("/p") };
    assert_eq!(action.clone(), action);
    let action = Action::StopServer { path: s("/p") };
    assert_eq!(action.clone(), action);
}
