use openjudge_cli::{transform_protocol, use_sixel, GraphicsProtocol, ProtocolError};

#[test]
fn kitty_terminal_wins_over_program() {
    let p = transform_protocol(GraphicsProtocol::Auto, Some("xterm-kitty"), Some("vscode"));
    assert_eq!(p, GraphicsProtocol::Kitty);
    let q = transform_protocol(GraphicsProtocol::Auto, Some("kitty"), None);
    assert_eq!(q, GraphicsProtocol::Kitty);
}

#[test]
fn program_decides_without_kitty_terminal() {
    let auto = GraphicsProtocol::Auto;
    assert_eq!(transform_protocol(auto, Some("xterm"), Some("ghostty")), GraphicsProtocol::Kitty);
    assert_eq!(transform_protocol(auto, None, Some("vscode")), GraphicsProtocol::ITerm);
    assert_eq!(transform_protocol(auto, None, Some("iTerm.app")), GraphicsProtocol::ITerm);
    assert_eq!(transform_protocol(auto, Some("xterm"), Some("Apple_Terminal")), GraphicsProtocol::Disabled);
    assert_eq!(transform_protocol(auto, Some("xterm"), None), GraphicsProtocol::Disabled);
    assert_eq!(transform_protocol(auto, None, None), GraphicsProtocol::Disabled);
}

#[test]
fn concrete_request_is_kept() {
    let p = transform_protocol(GraphicsProtocol::ITerm, Some("xterm-kitty"), None);
    assert_eq!(p, GraphicsProtocol::ITerm);
    let q = transform_protocol(GraphicsProtocol::Disabled, Some("kitty"), Some("ghostty"));
    assert_eq!(q, GraphicsProtocol::Disabled);
}

#[test]
fn names_parse_ignoring_case() {
    assert_eq!(GraphicsProtocol::parse("KITTY").unwrap(), GraphicsProtocol::Kitty);
    assert_eq!(GraphicsProtocol::parse("None").unwrap(), GraphicsProtocol::Disabled);
    assert_eq!(GraphicsProtocol::parse("0").unwrap(), GraphicsProtocol::Disabled);
    assert_eq!(GraphicsProtocol::parse("i").unwrap(), GraphicsProtocol::ITerm);
    assert_eq!(GraphicsProtocol::parse("Auto").unwrap(), GraphicsProtocol::Auto);
    let parsed: GraphicsProtocol = "k".parse().unwrap();
    assert_eq!(parsed, GraphicsProtocol::Kitty);
}

#[test]
fn unknown_name_is_refused() {
    match GraphicsProtocol::parse("vt100") {
        Err(ProtocolError::Invalid(v)) => assert_eq!(v, "vt100"),
        other => panic!("unexpected {:?}", other),
    }
    let e = GraphicsProtocol::parse("vt100").unwrap_err();
    assert_eq!(e.message(), "Invalid value for GraphicsProtocol: vt100");
}

#[test]
fn sixel_is_refused_in_this_build() {
    assert!(matches!(GraphicsProtocol::parse("Sixel"), Err(ProtocolError::SixelUnavailable)));
    assert!(matches!(use_sixel(), Err(ProtocolError::SixelUnavailable)));
}
