use tunnelblick::numbers::{parse_u64, u64_to_string};
use tunnelblick::{cmd, complete, version, Client};

#[test]
fn compiled_script_is_preamble_then_encoded_command() {
    let client = Client::new();
    let script = client.compile_script(&cmd("quit"));
    assert!(script.starts_with("script Tunnelblick\n"));
    assert!(script.ends_with("\ntell Tunnelblick to quit()"));
}

#[test]
fn version_banner_names_tool_and_application() {
    let banner = version("tunnelblick", "1.0.0", "4.0.1");
    assert_eq!(banner, "tunnelblick 1.0.0\nTunnelblick 4.0.1\n");
}

#[test]
fn completion_text_is_the_same_for_every_shell() {
    let bash = complete("bash");
    let zsh = complete("zsh");
    assert_eq!(bash, zsh);
    assert!(bash.contains("complete -F _tunnelblick tunnelblick"));
}

#[test]
fn decimal_round_trip_on_the_edges() {
    assert_eq!(u64_to_string(0), "0");
    assert_eq!(u64_to_string(1024), "1024");
    assert_eq!(u64_to_string(u64::MAX), "18446744073709551615");
    assert_eq!(parse_u64("0"), Some(0));
    assert_eq!(parse_u64("18446744073709551615"), Some(u64::MAX));
}

#[test]
fn decimal_rejects_what_is_not_a_plain_number() {
    assert_eq!(parse_u64(""), None);
    assert_eq!(parse_u64("12a"), None);
    assert_eq!(parse_u64("-1"), None);
    assert_eq!(parse_u64("+1"), None);
    assert_eq!(parse_u64("18446744073709551616"), None);
}
