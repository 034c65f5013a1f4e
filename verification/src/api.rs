//! The `/v1` endpoint of the service: which command a payload is, and the
//! answers given when a command cannot be carried out.
use vstd::prelude::*;

use crate::json::Json;
use crate::options::EnvOptions;
use crate::proxy::{BAD_GATEWAY, Reply, command_of};
use crate::solvers::SolversState;
use crate::text::starts_with;

verus! {

/// What the service holds while it answers requests; it never changes.
#[derive(Debug)]
pub struct AppState {
    pub environment: EnvOptions,
    pub solvers: SolversState,
}

impl AppState {
    /// The state made of the solvers `state` and the options `environment`.
    pub fn new(state: SolversState, environment: EnvOptions) -> (res: Self)
        ensures
            res.solvers == state,
            res.environment == environment,
    {
        Self { solvers: state, environment: environment }
    }
}

/// `500 Internal Server Error`.
pub const INTERNAL_SERVER_ERROR: u16 = 500;

/// `404 Not Found`.
pub const NOT_FOUND: u16 = 404;

/// The solving time, in milliseconds, when a payload gives no `maxTimeout`.
pub const DEFAULT_MAX_TIMEOUT_MS: u64 = 60000;

/// The command a `/v1` payload carries.
#[derive(Clone, Copy, Debug, PartialEq, Eq, Structural)]
pub enum V1Command {
    /// A `sessions.*` command, handled by the first solver.
    Session { max_timeout: u64 },
    /// A `request.*` command, raced over all solvers.
    Request { max_timeout: u64 },
    /// Any other command.
    Unknown,
}

/// The `maxTimeout` of a payload, or the default where it is not an unsigned integer.
pub open spec fn max_timeout_of(payload: Json) -> u64 {
    match payload.u64_field("maxTimeout"@) {
        Some(t) => t,
        None => DEFAULT_MAX_TIMEOUT_MS,
    }
}

/// The command that `/v1` reads from `payload`.
pub open spec fn command_kind(payload: Json) -> V1Command {
    let cmd = command_of(payload);
    if "sessions."@.is_prefix_of(cmd) {
        V1Command::Session { max_timeout: max_timeout_of(payload) }
    } else if "request."@.is_prefix_of(cmd) {
        V1Command::Request { max_timeout: max_timeout_of(payload) }
    } else {
        V1Command::Unknown
    }
}

/// The timeout a command carries is the payload's own: where `maxTimeout` is
/// an unsigned integer `t`, a session or request command carries exactly `t`;
/// otherwise it carries 60000. A command starting with `sessions.` is a session
/// command, one starting with `request.` a request command.
pub proof fn lemma_command_kind(payload: Json)
    ensures
        payload.u64_field("maxTimeout"@) matches Some(t) ==> max_timeout_of(payload) == t,
        payload.u64_field("maxTimeout"@) is None ==> max_timeout_of(payload) == 60000,
        command_kind(payload) matches V1Command::Session { max_timeout } ==> max_timeout
            == max_timeout_of(payload),
        command_kind(payload) matches V1Command::Request { max_timeout } ==> max_timeout
            == max_timeout_of(payload),
        payload.str_field("cmd"@) matches Some(c) ==> ("sessions."@.is_prefix_of(c)
            ==> command_kind(payload) is Session),
        payload.str_field("cmd"@) matches Some(c) ==> (!"sessions."@.is_prefix_of(c)
            && "request."@.is_prefix_of(c) ==> command_kind(payload) is Request),
{
}

/// Reads the command of a `/v1` payload: its `cmd` (the empty text where it has
/// none) decides the kind, and its `maxTimeout` the time a solver is given.
pub fn v1_command(payload: &Json) -> (res: V1Command)
    ensures
        res == command_kind(*payload),
{
    let cmd = match payload.get_str("cmd") {
        Some(c) => c,
        None => "",
    };
    proof {
        reveal_strlit("");
    }
    let max_timeout = match payload.get_u64("maxTimeout") {
        Some(t) => t,
        None => DEFAULT_MAX_TIMEOUT_MS,
    };
    if starts_with(cmd, "sessions.") {
        V1Command::Session { max_timeout }
    } else if starts_with(cmd, "request.") {
        V1Command::Request { max_timeout }
    } else {
        V1Command::Unknown
    }
}

/// A reply whose body is the JSON string `text`.
pub open spec fn is_text_reply(r: Reply, status: u16, text: Seq<char>) -> bool {
    &&& r.status == status
    &&& r.body matches Json::String(s) && s@ == text
}

/// The answer when a session command fails: a `500` with a fixed text.
pub fn session_failed_reply() -> (res: Reply)
    ensures
        is_text_reply(
            res,
            INTERNAL_SERVER_ERROR,
            "{{ status: \"error\", message: \"Failed to handle session command, see logs.\" }}"@,
        ),
{
    Reply {
        status: INTERNAL_SERVER_ERROR,
        body: Json::String(
            String::from_str(
                "{{ status: \"error\", message: \"Failed to handle session command, see logs.\" }}",
            ),
        ),
    }
}

/// The answer when no solver solved a request: a `502` whose text gives the
/// time spent, `elapsed` being that time already written out in seconds.
pub fn request_failed_reply(elapsed: &str) -> (res: Reply)
    ensures
        is_text_reply(
            res,
            BAD_GATEWAY,
            "{ status: \"error\", message: \"All solvers failed or timed out after "@ + elapsed@
                + "s\" }"@,
        ),
{
    let mut text = String::from_str(
        "{ status: \"error\", message: \"All solvers failed or timed out after ",
    );
    text.append(elapsed);
    text.append("s\" }");
    Reply { status: BAD_GATEWAY, body: Json::String(text) }
}

/// The answer to a command that is neither a session nor a request command.
pub fn unknown_command_reply() -> (res: Reply)
    ensures
        is_text_reply(res, NOT_FOUND, "Invalid cmd, please report to the developer."@),
{
    Reply {
        status: NOT_FOUND,
        body: Json::String(String::from_str("Invalid cmd, please report to the developer.")),
    }
}

} // verus!
