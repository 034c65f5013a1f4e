use flaresolverr_aggregate::options::{EnvError, EnvOptions, EnvVars, LogLevel, UrlError};

fn vars(log: Option<&str>, port: Option<&str>, fs: Option<&str>, by: Option<&str>) -> EnvVars {
    EnvVars {
        log_level: log.map(|s| s.to_string()),
        port: port.map(|s| s.to_string()),
        flaresolverr_url: fs.map(|s| s.to_string()),
        byparr_url: by.map(|s| s.to_string()),
    }
}

#[test]
fn unset_environment_gives_the_defaults() {
    let o = EnvOptions::from_env(&vars(None, None, None, None)).unwrap();
    let d = EnvOptions::default();
    assert_eq!(o.log_level, d.log_level);
    assert_eq!(o.port, d.port);
    assert_eq!(o.log_level, LogLevel::Info);
    assert_eq!(o.port, 8191);
    assert_eq!(o.flaresolverr_url, None);
    assert_eq!(o.byparr_url, None);
    assert!(!o.has_solver_url());
}

#[test]
fn log_levels_are_read_in_any_case() {
    let cases = [
        ("debug", LogLevel::Trace),
        ("DEBUG", LogLevel::Trace),
        ("trace", LogLevel::Trace),
        ("Info", LogLevel::Info),
        ("WARNING", LogLevel::Warn),
        ("error", LogLevel::Error),
    ];
    for (text, level) in cases {
        let o = EnvOptions::from_env(&vars(Some(text), None, None, None)).unwrap();
        assert_eq!(o.log_level, level, "{text}");
    }
}

#[test]
fn level_from_lowercase_takes_the_lowered_text() {
    assert_eq!(EnvOptions::level_from_lowercase("warning"), Some(LogLevel::Warn));
    assert_eq!(EnvOptions::level_from_lowercase("WARNING"), None);
    assert_eq!(EnvOptions::level_from_lowercase("warn"), None);
}

#[test]
fn unknown_log_level_is_refused() {
    match EnvOptions::from_env(&vars(Some("verbose"), Some("x"), None, None)) {
        Err(EnvError::InvalidLogLevel { log_level }) => assert_eq!(log_level, "verbose"),
        other => panic!("{other:?}"),
    }
}

#[test]
fn port_is_read_or_refused() {
    let o = EnvOptions::from_env(&vars(None, Some("9000"), None, None)).unwrap();
    assert_eq!(o.port, 9000);
    for bad in ["", "70000", "-1", "80a"] {
        match EnvOptions::from_env(&vars(None, Some(bad), None, None)) {
            Err(EnvError::InvalidPort { port }) => assert_eq!(port, bad),
            other => panic!("{other:?}"),
        }
    }
}

#[test]
fn solver_urls_are_parsed_and_normalized() {
    let o = EnvOptions::from_env(&vars(
        None,
        None,
        Some("http://flaresolverr:8192/v1"),
        Some("HTTP://Byparr:8193"),
    ))
    .unwrap();
    assert_eq!(o.flaresolverr_url.as_deref(), Some("http://flaresolverr:8192/v1"));
    assert_eq!(o.byparr_url.as_deref(), Some("http://byparr:8193/"));
    assert!(o.has_solver_url());
}

#[test]
fn empty_solver_url_counts_as_unset() {
    let o = EnvOptions::from_env(&vars(None, None, Some(""), Some(""))).unwrap();
    assert_eq!(o.flaresolverr_url, None);
    assert_eq!(o.byparr_url, None);
}

#[test]
fn invalid_solver_urls_are_refused_in_order() {
    match EnvOptions::from_env(&vars(None, None, Some("not a url"), Some("also bad"))) {
        Err(EnvError::InvalidFlaresolverrUrl { url, error }) => {
            assert_eq!(url, "not a url");
            assert_eq!(error, UrlError::RelativeUrlWithoutBase);
        },
        other => panic!("{other:?}"),
    }
    match EnvOptions::from_env(&vars(None, None, Some("http://a"), Some("not a url"))) {
        Err(EnvError::InvalidByparrUrl { url, error }) => {
            assert_eq!(url, "not a url");
            assert_eq!(error, UrlError::RelativeUrlWithoutBase);
        },
        other => panic!("{other:?}"),
    }
    match EnvOptions::from_env(&vars(None, None, None, Some("http://[::1"))) {
        Err(EnvError::InvalidByparrUrl { error, .. }) => assert_eq!(error, UrlError::InvalidIpv6Address),
        other => panic!("{other:?}"),
    }
    match EnvOptions::from_env(&vars(None, None, Some("http://host:99999"), None)) {
        Err(EnvError::InvalidFlaresolverrUrl { error, .. }) => assert_eq!(error, UrlError::InvalidPort),
        other => panic!("{other:?}"),
    }
}

#[test]
fn log_level_is_checked_before_port() {
    match EnvOptions::from_env(&vars(Some("loud"), Some("bad"), Some("bad"), None)) {
        Err(EnvError::InvalidLogLevel { .. }) => {},
        other => panic!("{other:?}"),
    }
    match EnvOptions::from_env(&vars(Some("info"), Some("bad"), Some("bad"), None)) {
        Err(EnvError::InvalidPort { .. }) => {},
        other => panic!("{other:?}"),
    }
}

#[test]
fn parse_log_level_reads_each_value() {
    let some = |x: &str| Some(x.to_string());
    assert!(matches!(EnvOptions::parse_log_level(&None), Ok(None)));
    assert!(matches!(EnvOptions::parse_log_level(&some("TRACE")), Ok(Some(LogLevel::Trace))));
    assert!(matches!(EnvOptions::parse_log_level(&some("Debug")), Ok(Some(LogLevel::Trace))));
    assert!(matches!(EnvOptions::parse_log_level(&some("info")), Ok(Some(LogLevel::Info))));
    assert!(matches!(EnvOptions::parse_log_level(&some("Warning")), Ok(Some(LogLevel::Warn))));
    assert!(matches!(EnvOptions::parse_log_level(&some("ERROR")), Ok(Some(LogLevel::Error))));
    for bad in ["Warn", ""] {
        match EnvOptions::parse_log_level(&some(bad)) {
            Err(EnvError::InvalidLogLevel { log_level }) => assert_eq!(log_level, bad),
            other => panic!("{other:?}"),
        }
    }
}

#[test]
fn parse_port_reads_each_value() {
    let some = |x: &str| Some(x.to_string());
    assert!(matches!(EnvOptions::parse_port(&None), Ok(None)));
    assert!(matches!(EnvOptions::parse_port(&some("8191")), Ok(Some(8191))));
    assert!(matches!(EnvOptions::parse_port(&some("+80")), Ok(Some(80))));
    for bad in ["", "-1", "80a", "65536"] {
        match EnvOptions::parse_port(&some(bad)) {
            Err(EnvError::InvalidPort { port }) => assert_eq!(port, bad),
            other => panic!("{other:?}"),
        }
    }
}

#[test]
fn parse_url_helpers_keep_their_variant() {
    let some = |x: &str| Some(x.to_string());
    assert!(matches!(EnvOptions::parse_flaresolverr_url(&None), Ok(None)));
    assert!(matches!(EnvOptions::parse_byparr_url(&some("")), Ok(None)));
    match EnvOptions::parse_flaresolverr_url(&some("HTTP://F:8192/v1")) {
        Ok(Some(u)) => assert_eq!(u, "http://f:8192/v1"),
        other => panic!("{other:?}"),
    }
    match EnvOptions::parse_byparr_url(&some("not a url")) {
        Err(EnvError::InvalidByparrUrl { url, error }) => {
            assert_eq!(url, "not a url");
            assert_eq!(error, UrlError::RelativeUrlWithoutBase);
        },
        other => panic!("{other:?}"),
    }
    match EnvOptions::parse_flaresolverr_url(&some("not a url")) {
        Err(EnvError::InvalidFlaresolverrUrl { url, .. }) => assert_eq!(url, "not a url"),
        other => panic!("{other:?}"),
    }
}
