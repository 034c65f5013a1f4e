use flaresolverr_aggregate::api::{
    request_failed_reply, session_failed_reply, unknown_command_reply, v1_command, AppState, V1Command,
};
use flaresolverr_aggregate::json::{Json, JsonNumber};
use flaresolverr_aggregate::options::{EnvOptions, LogLevel};
use flaresolverr_aggregate::router::{bind_address, health_reply};
use flaresolverr_aggregate::solvers::{FlareSolverrSolver, SolversState};

fn payload(cmd: Option<&str>, max: Option<u64>) -> Json {
    let mut o = Json::empty_object();
    if let Some(c) = cmd {
        o.insert("cmd".to_string(), Json::String(c.to_string()));
    }
    if let Some(m) = max {
        o.insert("maxTimeout".to_string(), Json::Number(JsonNumber::PosInt(m)));
    }
    o
}

fn options(fs: Option<&str>, by: Option<&str>) -> EnvOptions {
    EnvOptions {
        log_level: LogLevel::Info,
        port: 8191,
        flaresolverr_url: fs.map(|s| s.to_string()),
        byparr_url: by.map(|s| s.to_string()),
    }
}

#[test]
fn v1_reads_the_command_and_timeout() {
    assert_eq!(v1_command(&payload(Some("sessions.list"), None)), V1Command::Session { max_timeout: 60000 });
    assert_eq!(v1_command(&payload(Some("request.get"), Some(30000))), V1Command::Request { max_timeout: 30000 });
    assert_eq!(v1_command(&payload(Some("request.post"), None)), V1Command::Request { max_timeout: 60000 });
    assert_eq!(v1_command(&payload(Some("status"), Some(1))), V1Command::Unknown);
    assert_eq!(v1_command(&payload(None, None)), V1Command::Unknown);
}

#[test]
fn v1_failure_replies() {
    let r = session_failed_reply();
    assert_eq!(r.status, 500);
    assert_eq!(
        r.body,
        Json::String("{{ status: \"error\", message: \"Failed to handle session command, see logs.\" }}".to_string())
    );
    let r = request_failed_reply("3.50");
    assert_eq!(r.status, 502);
    assert_eq!(
        r.body,
        Json::String("{ status: \"error\", message: \"All solvers failed or timed out after 3.50s\" }".to_string())
    );
    let r = unknown_command_reply();
    assert_eq!(r.status, 404);
    assert_eq!(r.body, Json::String("Invalid cmd, please report to the developer.".to_string()));
}

#[test]
fn solvers_follow_the_options() {
    let st = SolversState::new(&options(Some("http://f/v1"), Some("http://b/v1")));
    let urls: Vec<&str> = st.solvers.iter().map(|s| s.url()).collect();
    assert_eq!(urls, vec!["http://f/v1", "http://b/v1"]);
    let st = SolversState::new(&options(None, Some("http://b/v1")));
    assert_eq!(st.solvers.len(), 1);
    assert_eq!(st.session_solver().unwrap().url(), "http://b/v1");
    let st = SolversState::new(&options(None, None));
    assert!(st.solvers.is_empty());
    assert!(st.session_solver().is_err());
}

#[test]
fn solver_keeps_its_url() {
    let s = FlareSolverrSolver::new("http://flaresolverr:8192/v1".to_string());
    assert_eq!(s.url(), "http://flaresolverr:8192/v1");
}

#[test]
fn request_outcome_needs_status_ok() {
    let mut ok = Json::empty_object();
    ok.insert("status".to_string(), Json::String("ok".to_string()));
    assert!(FlareSolverrSolver::request_outcome(ok).is_ok());
    let mut bad = Json::empty_object();
    bad.insert("status".to_string(), Json::String("error".to_string()));
    assert!(FlareSolverrSolver::request_outcome(bad).is_err());
    assert!(FlareSolverrSolver::request_outcome(Json::Null).is_err());
}

#[test]
fn app_state_holds_its_parts() {
    let env = options(Some("http://f/v1"), None);
    let st = SolversState::new(&env);
    let app = AppState::new(st, env);
    assert_eq!(app.environment.port, 8191);
    assert_eq!(app.solvers.solvers.len(), 1);
}

#[test]
fn router_binds_every_interface() {
    assert_eq!(bind_address(8191), "0.0.0.0:8191");
    assert_eq!(bind_address(0), "0.0.0.0:0");
    assert_eq!(bind_address(65535), "0.0.0.0:65535");
}

#[test]
fn health_is_healthy() {
    let r = health_reply();
    assert_eq!(r.status, 200);
    assert_eq!(r.body.get_str("health"), Some("healthy"));
}
