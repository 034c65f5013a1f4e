use flaresolverr_aggregate::config::SolverConfig;
use flaresolverr_aggregate::json::{Json, JsonNumber};
use flaresolverr_aggregate::proxy::{
    cap_max_timeout, dispatch, enabled_solvers, error_reply, first_enabled, health_report,
    race_failed_reply, request_target, session_solver, solution_of, solver_timeout, Dispatch,
};

fn s(x: &str) -> Json {
    Json::String(x.to_string())
}

fn obj(members: Vec<(&str, Json)>) -> Json {
    let mut o = Json::empty_object();
    for (k, v) in members {
        o.insert(k.to_string(), v);
    }
    o
}

fn num(n: u64) -> Json {
    Json::Number(JsonNumber::PosInt(n))
}

fn solver(name: &str, enabled: bool) -> SolverConfig {
    SolverConfig { name: name.to_string(), url: format!("http://{name}"), enabled }
}

#[test]
fn solver_timeout_leaves_a_margin() {
    assert_eq!(solver_timeout(60000), 58000);
    assert_eq!(solver_timeout(2000), 0);
    assert_eq!(solver_timeout(500), 0);
}

#[test]
fn cap_lowers_a_large_max_timeout() {
    let mut p = obj(vec![("cmd", s("request.get")), ("maxTimeout", num(120000))]);
    cap_max_timeout(&mut p, 60000);
    assert_eq!(p.get_u64("maxTimeout"), Some(58000));
    assert_eq!(p.get_str("cmd"), Some("request.get"));
}

#[test]
fn cap_keeps_a_small_max_timeout() {
    let mut p = obj(vec![("maxTimeout", num(1000))]);
    cap_max_timeout(&mut p, 60000);
    assert_eq!(p, obj(vec![("maxTimeout", num(1000))]));
}

#[test]
fn cap_sets_a_missing_or_odd_max_timeout() {
    let mut p = obj(vec![("url", s("https://example.com"))]);
    cap_max_timeout(&mut p, 10000);
    assert_eq!(p.get_u64("maxTimeout"), Some(8000));
    let mut q = obj(vec![("maxTimeout", s("soon"))]);
    cap_max_timeout(&mut q, 10000);
    assert_eq!(q.get_u64("maxTimeout"), Some(8000));
}

#[test]
fn cap_twice_is_cap_once() {
    let mut p = obj(vec![("maxTimeout", num(99999))]);
    cap_max_timeout(&mut p, 30000);
    let mut q = obj(vec![("maxTimeout", num(99999))]);
    cap_max_timeout(&mut q, 30000);
    cap_max_timeout(&mut q, 30000);
    assert_eq!(p, q);
}

#[test]
fn cap_ignores_non_objects() {
    let mut p = s("payload");
    cap_max_timeout(&mut p, 10000);
    assert_eq!(p, s("payload"));
}

#[test]
fn request_target_names_the_url() {
    assert_eq!(request_target(&obj(vec![("url", s("https://x"))])), "https://x");
    assert_eq!(request_target(&obj(vec![])), "?");
    assert_eq!(request_target(&obj(vec![("url", num(1))])), "?");
}

#[test]
fn only_status_ok_is_a_solution() {
    let good = obj(vec![("status", s("ok")), ("solution", obj(vec![]))]);
    assert_eq!(solution_of(good), Some(obj(vec![("status", s("ok")), ("solution", obj(vec![]))])));
    assert_eq!(solution_of(obj(vec![("status", s("error")), ("message", s("boom"))])), None);
    assert_eq!(solution_of(obj(vec![("status", s("OK"))])), None);
    assert_eq!(solution_of(obj(vec![])), None);
}

#[test]
fn session_commands_are_forwarded() {
    assert_eq!(dispatch(&obj(vec![("cmd", s("sessions.create"))])), Dispatch::Session);
    assert_eq!(dispatch(&obj(vec![("cmd", s("request.get"))])), Dispatch::Race);
    assert_eq!(dispatch(&obj(vec![])), Dispatch::Race);
    assert_eq!(dispatch(&obj(vec![("cmd", s("sessions"))])), Dispatch::Race);
}

#[test]
fn only_enabled_solvers_race_in_order() {
    let all = vec![solver("a", false), solver("b", true), solver("c", false), solver("d", true)];
    let names: Vec<String> = enabled_solvers(&all).into_iter().map(|s| s.name).collect();
    assert_eq!(names, vec!["b", "d"]);
    assert_eq!(first_enabled(&all), Some(1));
    assert_eq!(session_solver(&all).ok(), Some(1));
}

#[test]
fn no_enabled_solver_is_a_503() {
    let all = vec![solver("a", false)];
    assert_eq!(first_enabled(&all), None);
    assert!(enabled_solvers(&all).is_empty());
    let r = session_solver(&all).unwrap_err();
    assert_eq!(r.status, 503);
    assert_eq!(r.body.get_str("status"), Some("error"));
    assert_eq!(r.body.get_str("message"), Some("No enabled solvers"));
}

#[test]
fn error_reply_body() {
    let r = error_reply(502, "boom");
    assert_eq!(r.status, 502);
    assert_eq!(r.body, obj(vec![("status", s("error")), ("message", s("boom"))]));
}

#[test]
fn race_failed_reply_says_how_long() {
    let r = race_failed_reply("12.34");
    assert_eq!(r.status, 502);
    assert_eq!(r.body.get_str("message"), Some("All solvers failed or timed out after 12.34s"));
}

#[test]
fn health_report_lists_every_solver() {
    let all = vec![solver("a", true), solver("b", false)];
    let h = health_report("0.1.0", &all);
    assert_eq!(h.get_str("status"), Some("ok"));
    assert_eq!(h.get_str("version"), Some("0.1.0"));
    let expected = Json::Array(vec![
        obj(vec![("name", s("a")), ("url", s("http://a")), ("enabled", Json::Bool(true))]),
        obj(vec![("name", s("b")), ("url", s("http://b")), ("enabled", Json::Bool(false))]),
    ]);
    assert_eq!(h.get("solvers"), Some(&expected));
}
