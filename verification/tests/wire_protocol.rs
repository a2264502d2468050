use maypaper::{ArgsError, Command, DecodeError};

fn s(text: &str) -> String {
    text.to_string()
}

fn url(monitor: Option<&str>, url: &str) -> Command {
    Command::SetUrl { monitor: monitor.map(s), url: s(url) }
}

fn path(monitor: Option<&str>, path: &str) -> Command {
    Command::SetPath { monitor: monitor.map(s), path: s(path) }
}

#[test]
fn encodes_a_broadcast_path() {
    assert_eq!(
        path(None, "/pics/a.png").encode(),
        Some(s("{\"SetPath\":{\"monitor\":null,\"path\":\"/pics/a.png\"}}"))
    );
}

#[test]
fn encodes_a_named_url() {
    assert_eq!(
        url(Some("eDP-1"), "https://example.org").encode(),
        Some(s("{\"SetUrl\":{\"monitor\":\"eDP-1\",\"url\":\"https://example.org\"}}"))
    );
}

#[test]
fn line_ends_with_one_newline() {
    assert_eq!(
        url(None, "https://example.org").to_line(),
        Some(s("{\"SetUrl\":{\"monitor\":null,\"url\":\"https://example.org\"}}\n"))
    );
}

#[test]
fn decodes_a_broadcast_path() {
    assert_eq!(
        Command::decode("{\"SetPath\":{\"monitor\":null,\"path\":\"/pics/a.png\"}}"),
        Ok(path(None, "/pics/a.png"))
    );
}

#[test]
fn decodes_a_named_url() {
    assert_eq!(
        Command::decode("{\"SetUrl\":{\"monitor\":\"HDMI-1\",\"url\":\"https://example.org\"}}"),
        Ok(url(Some("HDMI-1"), "https://example.org"))
    );
}

#[test]
fn absent_monitor_is_a_broadcast() {
    assert_eq!(
        Command::decode("{\"SetUrl\":{\"url\":\"https://example.org\"}}"),
        Ok(url(None, "https://example.org"))
    );
    assert!(url(None, "https://example.org").is_broadcast());
    assert!(!url(Some("eDP-1"), "https://example.org").is_broadcast());
    assert_eq!(path(Some("eDP-1"), "/p").monitor(), &Some(s("eDP-1")));
}

#[test]
fn decodes_a_line_with_its_newline_and_spaces() {
    assert_eq!(
        Command::decode(" { \"SetPath\" : { \"path\" : \"/pics\" , \"monitor\" : \"eDP-1\" } }\n"),
        Ok(path(Some("eDP-1"), "/pics"))
    );
}

#[test]
fn members_outside_the_protocol_are_ignored() {
    assert_eq!(
        Command::decode("{\"SetUrl\":{\"url\":\"https://example.org\",\"zoom\":2}}"),
        Ok(url(None, "https://example.org"))
    );
}

#[test]
fn round_trip_keeps_every_character() {
    let commands = vec![
        url(None, ""),
        url(Some(""), "https://example.org/?q=\"a b\"&r=\\"),
        url(Some("eDP-1"), "line\nbreak\ttab\u{0}nul"),
        path(Some("HDMI-A-1"), "/home/ü/Bilder/壁紙 🖼.png"),
        path(None, "/pics/a.png"),
        url(Some("monitor"), "url"),
        path(Some("SetUrl"), "SetPath"),
    ];
    for command in commands {
        let line = command.to_line().expect("a command can be written");
        assert_eq!(line.matches('\n').count(), 1);
        assert_eq!(Command::decode(&line), Ok(command.clone()));
        let message = command.encode().expect("a command can be written");
        assert_eq!(Command::decode(&message), Ok(command));
    }
}

#[test]
fn document_round_trip() {
    let command = path(Some("eDP-1"), "/pics/a.png");
    let document = command.to_json();
    assert_eq!(
        document.to_string(),
        "{\"SetPath\":{\"monitor\":\"eDP-1\",\"path\":\"/pics/a.png\"}}"
    );
    assert_eq!(Command::from_json(&document), Ok(command));
}

#[test]
fn text_that_is_no_json_is_refused() {
    assert_eq!(Command::decode(""), Err(DecodeError::Syntax));
    assert_eq!(Command::decode("SetUrl"), Err(DecodeError::Syntax));
    assert_eq!(Command::decode("{\"SetUrl\":{\"url\":\"x\"}"), Err(DecodeError::Syntax));
    assert_eq!(Command::decode("{\"SetUrl\":{\"url\":\"x\"}} {}"), Err(DecodeError::Syntax));
}

#[test]
fn document_that_is_no_envelope_is_refused() {
    assert_eq!(Command::decode("null"), Err(DecodeError::Envelope));
    assert_eq!(Command::decode("\"SetUrl\""), Err(DecodeError::Envelope));
    assert_eq!(Command::decode("[]"), Err(DecodeError::Envelope));
    assert_eq!(Command::decode("{}"), Err(DecodeError::Envelope));
    assert_eq!(
        Command::decode("{\"SetUrl\":{\"url\":\"x\"},\"SetPath\":{\"path\":\"/p\"}}"),
        Err(DecodeError::Envelope)
    );
    assert_eq!(
        Command::decode("{\"SetUrl\":{\"url\":\"x\"},\"extra\":1}"),
        Err(DecodeError::Envelope)
    );
}

#[test]
fn unknown_kind_is_refused() {
    assert_eq!(Command::decode("{\"SetColor\":{\"color\":\"red\"}}"), Err(DecodeError::Kind));
    assert_eq!(Command::decode("{\"seturl\":{\"url\":\"x\"}}"), Err(DecodeError::Kind));
}

#[test]
fn body_that_is_no_object_is_refused() {
    assert_eq!(Command::decode("{\"SetUrl\":\"https://example.org\"}"), Err(DecodeError::Body));
    assert_eq!(Command::decode("{\"SetPath\":[null,\"/p\"]}"), Err(DecodeError::Body));
    assert_eq!(Command::decode("{\"SetPath\":null}"), Err(DecodeError::Body));
}

#[test]
fn monitor_of_another_type_is_refused() {
    assert_eq!(
        Command::decode("{\"SetUrl\":{\"monitor\":1,\"url\":\"x\"}}"),
        Err(DecodeError::Monitor)
    );
    assert_eq!(
        Command::decode("{\"SetPath\":{\"monitor\":[\"eDP-1\"]}}"),
        Err(DecodeError::Monitor)
    );
}

#[test]
fn missing_content_is_refused() {
    assert_eq!(Command::decode("{\"SetUrl\":{\"monitor\":null}}"), Err(DecodeError::Missing));
    assert_eq!(Command::decode("{\"SetUrl\":{\"path\":\"/p\"}}"), Err(DecodeError::Missing));
    assert_eq!(Command::decode("{\"SetPath\":{\"url\":\"x\"}}"), Err(DecodeError::Missing));
    assert_eq!(Command::decode("{\"SetPath\":{}}"), Err(DecodeError::Missing));
}

#[test]
fn content_of_another_type_is_refused() {
    assert_eq!(Command::decode("{\"SetUrl\":{\"url\":null}}"), Err(DecodeError::Field));
    assert_eq!(Command::decode("{\"SetPath\":{\"path\":7}}"), Err(DecodeError::Field));
}

#[test]
fn arguments_name_exactly_one_content() {
    assert_eq!(
        Command::from_args(Some(s("eDP-1")), Some(s("https://example.org")), None),
        Ok(url(Some("eDP-1"), "https://example.org"))
    );
    assert_eq!(Command::from_args(None, None, Some(s("/pics"))), Ok(path(None, "/pics")));
    assert_eq!(
        Command::from_args(None, Some(s("https://example.org")), Some(s("/pics"))),
        Err(ArgsError::Conflict)
    );
    assert_eq!(Command::from_args(Some(s("eDP-1")), None, None), Err(ArgsError::Missing));
}
