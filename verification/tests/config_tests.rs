use flaresolverr_aggregate::config::{AppConfig, ConfigVars, SolverSlotVars, SOLVER_SLOTS};

fn o(x: &str) -> Option<String> {
    Some(x.to_string())
}

fn empty_slots() -> Vec<SolverSlotVars> {
    (0..SOLVER_SLOTS).map(|_| SolverSlotVars { name: None, url: None, enabled: None }).collect()
}

fn base() -> ConfigVars {
    ConfigVars {
        host: None,
        port: None,
        race_timeout_ms: None,
        slots: empty_slots(),
        flaresolverr_url: None,
        byparr_url: None,
        cf_clearance_url: None,
    }
}

#[test]
fn defaults_without_environment() {
    let c = AppConfig::from_env(&base());
    assert_eq!(c.host, "0.0.0.0");
    assert_eq!(c.port, 8191);
    assert_eq!(c.race_timeout_ms, 60000);
    assert!(c.solvers.is_empty());
    assert_eq!(c.listen_address(), "0.0.0.0:8191");
}

#[test]
fn unreadable_numbers_fall_back_to_defaults() {
    let mut v = base();
    v.host = o("127.0.0.1");
    v.port = o("not-a-port");
    v.race_timeout_ms = o("-5");
    let c = AppConfig::from_env(&v);
    assert_eq!(c.host, "127.0.0.1");
    assert_eq!(c.port, 8191);
    assert_eq!(c.race_timeout_ms, 60000);
    v.port = o("8080");
    v.race_timeout_ms = o("90000");
    let c = AppConfig::from_env(&v);
    assert_eq!(c.port, 8080);
    assert_eq!(c.race_timeout_ms, 90000);
    assert_eq!(c.listen_address(), "127.0.0.1:8080");
}

#[test]
fn numbered_solvers_skip_gaps_and_keep_order() {
    let mut v = base();
    v.slots[3] = SolverSlotVars { name: o("b"), url: o("http://b"), enabled: o("FALSE") };
    v.slots[0] = SolverSlotVars { name: o("a"), url: o("http://a"), enabled: None };
    v.slots[5] = SolverSlotVars { name: o("c"), url: None, enabled: None };
    v.slots[9] = SolverSlotVars { name: o("d"), url: o("http://d"), enabled: o("yes") };
    v.flaresolverr_url = o("http://ignored");
    let c = AppConfig::from_env(&v);
    let got: Vec<(&str, &str, bool)> =
        c.solvers.iter().map(|s| (s.name.as_str(), s.url.as_str(), s.enabled)).collect();
    assert_eq!(got, vec![("a", "http://a", true), ("b", "http://b", false), ("d", "http://d", true)]);
}

#[test]
fn enabled_words_in_any_case() {
    for (word, enabled) in [("false", false), ("No", false), ("0", false), ("true", true), ("1", true), ("", true)] {
        let mut v = base();
        v.slots[1] = SolverSlotVars { name: o("x"), url: o("http://x"), enabled: o(word) };
        let c = AppConfig::from_env(&v);
        assert_eq!(c.solvers[0].enabled, enabled, "{word:?}");
    }
    assert!(AppConfig::disabling_word("no"));
    assert!(!AppConfig::disabling_word("NO"));
}

#[test]
fn well_known_solvers_when_none_numbered() {
    let mut v = base();
    v.byparr_url = o("http://byparr:8193/v1");
    v.cf_clearance_url = o("http://cf:8000");
    v.flaresolverr_url = o("http://flaresolverr:8192/v1");
    let c = AppConfig::from_env(&v);
    let got: Vec<(&str, &str, bool)> =
        c.solvers.iter().map(|s| (s.name.as_str(), s.url.as_str(), s.enabled)).collect();
    assert_eq!(
        got,
        vec![
            ("flaresolverr", "http://flaresolverr:8192/v1", true),
            ("byparr", "http://byparr:8193/v1", true),
            ("cf-clearance", "http://cf:8000", true),
        ]
    );
}

#[test]
fn slots_past_the_limit_are_not_read() {
    let mut v = base();
    v.slots.push(SolverSlotVars { name: o("eleventh"), url: o("http://e"), enabled: None });
    v.byparr_url = o("http://byparr");
    let c = AppConfig::from_env(&v);
    let names: Vec<&str> = c.solvers.iter().map(|s| s.name.as_str()).collect();
    assert_eq!(names, vec!["byparr"]);
}
