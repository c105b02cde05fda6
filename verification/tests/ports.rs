use codechain_process::port::{parse_port, parse_port_token, parse_ports};

fn list(tokens: &[&str]) -> Vec<String> {
    tokens.iter().map(|t| t.to_string()).collect()
}

#[test]
fn port_option_is_found() {
    let args = list(&["--db-path", "db", "--port", "1234"]);
    assert_eq!(parse_port(&args, "--port"), Some(1234));
    assert_eq!(parse_ports(&args), (1234, 8080));
}

#[test]
fn defaults_apply_when_options_are_absent() {
    let args = list(&["--no-miner"]);
    assert_eq!(parse_port(&args, "--port"), None);
    assert_eq!(parse_ports(&args), (3485, 8080));
    assert_eq!(parse_ports(&[]), (3485, 8080));
}

#[test]
fn trailing_option_has_no_value() {
    let args = list(&["--port", "3000", "--jsonrpc-port"]);
    assert_eq!(parse_port(&args, "--jsonrpc-port"), None);
    assert_eq!(parse_ports(&args), (3000, 8080));
}

#[test]
fn only_the_first_occurrence_counts() {
    let args = list(&["--port", "x", "--port", "1234"]);
    assert_eq!(parse_port(&args, "--port"), None);
    let args = list(&["--jsonrpc-port", "80", "--jsonrpc-port"]);
    assert_eq!(parse_port(&args, "--jsonrpc-port"), Some(80));
}

#[test]
fn port_tokens() {
    assert_eq!(parse_port_token("0"), Some(0));
    assert_eq!(parse_port_token("65535"), Some(65535));
    assert_eq!(parse_port_token("65536"), None);
    assert_eq!(parse_port_token("+80"), Some(80));
    assert_eq!(parse_port_token("0000000000000000000080"), Some(80));
    assert_eq!(parse_port_token(""), None);
    assert_eq!(parse_port_token("+"), None);
    assert_eq!(parse_port_token("-1"), None);
    assert_eq!(parse_port_token("++1"), None);
    assert_eq!(parse_port_token("80a"), None);
    assert_eq!(parse_port_token(" 80"), None);
    assert_eq!(parse_port_token("99999999999999999999"), None);
    assert_eq!(parse_port_token("٣"), None);
}

#[test]
fn port_tokens_agree_with_std() {
    for t in ["0", "65535", "65536", "+80", "007", "", "+", "-0", "1_0", "8080 ", "4x"] {
        assert_eq!(parse_port_token(t), t.parse::<u16>().ok(), "{:?}", t);
    }
}
