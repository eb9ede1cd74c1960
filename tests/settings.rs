use openjudge_cli::{configure, ensure_last_problem, AppConfig, ConfigError, GraphicsProtocol};

fn stored() -> AppConfig {
    AppConfig {
        user_email: Some("me@example.com".to_string()),
        last_problem: Some("http://noi.openjudge.cn/ch0101/01/".to_string()),
        graphics_protocol: None,
    }
}

#[test]
fn dot_means_last_problem() {
    let c = Some(stored());
    assert_eq!(ensure_last_problem(".", &c).unwrap(), "http://noi.openjudge.cn/ch0101/01/");
    assert_eq!(ensure_last_problem("abc", &c).unwrap(), "abc");
}

#[test]
fn dot_without_history_fails() {
    assert_eq!(ensure_last_problem(".", &None), Err(ConfigError::NoLastProblem));
    let empty = Some(AppConfig::default());
    assert_eq!(ensure_last_problem(".", &empty), Err(ConfigError::NoLastProblem));
    assert_eq!(ensure_last_problem("x", &None).unwrap(), "x");
}

#[test]
fn configure_sets_protocol_and_keeps_the_rest() {
    let c = configure(Some(stored()), "Kitty").unwrap();
    assert_eq!(c.graphics_protocol, Some(GraphicsProtocol::Kitty));
    assert_eq!(c.user_email.as_deref(), Some("me@example.com"));
    let fresh = configure(None, "iterm").unwrap();
    assert_eq!(fresh.graphics_protocol, Some(GraphicsProtocol::ITerm));
    assert!(fresh.user_email.is_none());
    assert!(fresh.last_problem.is_none());
}

#[test]
fn configure_rejects_unknown_names() {
    assert!(configure(None, "bogus").is_err());
    assert!(configure(Some(stored()), "sixel").is_err());
}
