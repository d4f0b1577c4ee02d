use tunnelblick::{cmd, Cmd, Command};

#[test]
fn encodes_single_argument_command() {
    let encoded = cmd("disconnect").arg("Office VPN").encode();
    assert_eq!(encoded, "tell Tunnelblick to disconnect(\"Office VPN\")");
}

#[test]
fn encodes_no_argument_command_with_empty_list() {
    let encoded = cmd("connectAll").encode();
    assert_eq!(encoded, "tell Tunnelblick to connectAll()");
}

#[test]
fn encodes_run_with_launch_idiom() {
    let encoded = cmd("run").encode();
    assert_eq!(encoded, "run Tunnelblick");
}

#[test]
fn quotes_embedded_quotes() {
    let encoded = cmd("connect").arg("Office \"VPN\"").encode();
    assert_eq!(encoded, "tell Tunnelblick to connect(\"Office \\\"VPN\\\"\")");
}

#[test]
fn quotes_embedded_backslash() {
    let encoded = cmd("connect").arg("a\\b").encode();
    assert_eq!(encoded, "tell Tunnelblick to connect(\"a\\\\b\")");
}

#[test]
fn quotes_embedded_newline_and_tab() {
    let encoded = cmd("connect").arg("a\nb\tc").encode();
    assert_eq!(encoded, "tell Tunnelblick to connect(\"a\\nb\\tc\")");
}

#[test]
fn joins_arguments_with_commas() {
    let encoded = cmd("connect").args(&["one", "two", "three"]).encode();
    assert_eq!(
        encoded,
        "tell Tunnelblick to connect(\"one\",\"two\",\"three\")"
    );
}

#[test]
fn builder_replaces_name_and_keeps_arguments() {
    let encoded = Cmd::new().cmd("old").arg("x").cmd("new").encode();
    assert_eq!(encoded, "tell Tunnelblick to new(\"x\")");
}

#[test]
fn command_variants_encode_to_their_handlers() {
    let cases = [
        (
            Command::Connect(String::from("Work")),
            "tell Tunnelblick to connect(\"Work\")",
        ),
        (Command::ConnectAll, "tell Tunnelblick to connectAll()"),
        (
            Command::Disconnect(String::from("Work")),
            "tell Tunnelblick to disconnect(\"Work\")",
        ),
        (
            Command::DisconnectAll,
            "tell Tunnelblick to disconnectAll()",
        ),
        (
            Command::GetConfigurations,
            "tell Tunnelblick to getConfigurations()",
        ),
        (Command::GetStatus, "tell Tunnelblick to showStatus()"),
        (Command::Quit, "tell Tunnelblick to quit()"),
        (Command::Launch, "run Tunnelblick"),
        (Command::GetVersion, "tell Tunnelblick to getVersion()"),
    ];
    for (command, expected) in cases {
        assert_eq!(command.encode(), expected);
    }
}

#[test]
fn only_status_replies_are_marked_for_alignment() {
    assert!(Command::GetStatus.is_status());
    assert!(!Command::ConnectAll.is_status());
    assert!(!Command::Launch.is_status());
}
