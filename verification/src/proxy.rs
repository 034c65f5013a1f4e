//! The aggregator's request handling: which solvers take part, how a request is
//! prepared for a solver, which solver answers count, and the bodies of the
//! aggregator's own answers.
use vstd::prelude::*;

use crate::config::{SolverConfig, SolverView, solvers_view};
use crate::json::{Json, JsonNumber};
use crate::text::starts_with;

verus! {

/// An answer of the aggregator: an HTTP status code and a JSON body.
#[derive(Debug)]
pub struct Reply {
    pub status: u16,
    pub body: Json,
}

/// `503 Service Unavailable`.
pub const SERVICE_UNAVAILABLE: u16 = 503;

/// `502 Bad Gateway`.
pub const BAD_GATEWAY: u16 = 502;

/// How much sooner than the race a solver is told to give up, in milliseconds.
pub const SOLVER_TIMEOUT_MARGIN_MS: u64 = 2000;

/// Where `/v1` sends a request.
#[derive(Clone, Copy, Debug, PartialEq, Eq, Structural)]
pub enum Dispatch {
    /// A session command: forwarded to the first enabled solver only.
    Session,
    /// Any other command: raced over all enabled solvers.
    Race,
}

/// The `cmd` of a payload, or the empty text where it has none.
pub open spec fn command_of(payload: Json) -> Seq<char> {
    match payload.str_field("cmd"@) {
        Some(c) => c,
        None => Seq::empty(),
    }
}

/// The enabled solvers among `s`, in order.
pub open spec fn enabled_only(s: Seq<SolverView>) -> Seq<SolverView>
    decreases s.len(),
{
    if s.len() == 0 {
        Seq::empty()
    } else if s.last().2 {
        enabled_only(s.drop_last()).push(s.last())
    } else {
        enabled_only(s.drop_last())
    }
}

/// The timeout a solver is given: the race timeout less the margin, and no less
/// than zero.
pub open spec fn solver_timeout_of(race_timeout_ms: u64) -> u64 {
    if race_timeout_ms >= SOLVER_TIMEOUT_MARGIN_MS {
        (race_timeout_ms - SOLVER_TIMEOUT_MARGIN_MS) as u64
    } else {
        0
    }
}

/// The `maxTimeout` a payload asks of a solver: its value where it is an
/// unsigned integer, and without limit otherwise.
pub open spec fn asked_timeout(payload: Json) -> u64 {
    match payload.u64_field("maxTimeout"@) {
        Some(t) => t,
        None => u64::MAX,
    }
}

/// A JSON object of exactly the members `status` and `message`, both strings.
pub open spec fn is_status_body(body: Json, status: Seq<char>, message: Seq<char>) -> bool {
    &&& body is Object
    &&& body.member_count() == 2
    &&& body.distinct_keys()
    &&& body.str_field("status"@) == Some(status)
    &&& body.str_field("message"@) == Some(message)
}

/// The health entry of one solver: exactly its name, URL and whether it is enabled.
pub open spec fn is_solver_entry(item: Json, s: SolverConfig) -> bool {
    &&& item is Object
    &&& item.member_count() == 3
    &&& item.distinct_keys()
    &&& item.str_field("name"@) == Some(s.name@)
    &&& item.str_field("url"@) == Some(s.url@)
    &&& item.bool_field("enabled"@) == Some(s.enabled)
}

/// The timeout a solver is given for a race of `race_timeout_ms`, so that it
/// gives up before the race does.
pub fn solver_timeout(race_timeout_ms: u64) -> (res: u64)
    ensures
        res == solver_timeout_of(race_timeout_ms),
{
    race_timeout_ms.saturating_sub(SOLVER_TIMEOUT_MARGIN_MS)
}

/// Prepares a payload for a solver in a race of `race_timeout_ms`: where the
/// payload is an object whose `maxTimeout` is missing, not an unsigned integer,
/// or larger than the solver's timeout, `maxTimeout` is set to that timeout.
/// Nothing else changes.
pub fn cap_max_timeout(payload: &mut Json, race_timeout_ms: u64)
    ensures
        (*old(payload) is Object && asked_timeout(*old(payload)) > solver_timeout_of(
            race_timeout_ms,
        )) ==> {
            &&& *final(payload) is Object
            &&& final(payload).field("maxTimeout"@) == Some(
                Json::Number(JsonNumber::PosInt(solver_timeout_of(race_timeout_ms))),
            )
            &&& forall|k: Seq<char>|
                k != "maxTimeout"@ ==> #[trigger] final(payload).field(k) == old(payload).field(
                    k,
                )
            &&& old(payload).distinct_keys() ==> final(payload).distinct_keys()
        },
        *final(payload) is Object ==> asked_timeout(*final(payload)) <= solver_timeout_of(
            race_timeout_ms,
        ),
        !(*old(payload) is Object && asked_timeout(*old(payload)) > solver_timeout_of(
            race_timeout_ms,
        )) ==> *final(payload) == *old(payload),
{
    let solver_ms = solver_timeout(race_timeout_ms);
    if let Json::Object(_) = payload {
        let current = match payload.get_u64("maxTimeout") {
            Some(t) => t,
            None => u64::MAX,
        };
        if current > solver_ms {
            payload.insert(
                String::from_str("maxTimeout"),
                Json::Number(JsonNumber::PosInt(solver_ms)),
            );
        }
    }
}

/// The target URL a payload names, for the logs: its `url`, or `?`.
pub fn request_target(payload: &Json) -> (res: String)
    ensures
        res@ == match payload.str_field("url"@) {
            Some(u) => u,
            None => "?"@,
        },
{
    match payload.get_str("url") {
        Some(u) => String::from_str(u),
        None => String::from_str("?"),
    }
}

/// A solver's answer counts as a solution only where its `status` is `ok`.
pub fn solution_of(data: Json) -> (res: Option<Json>)
    ensures
        data.str_field("status"@) == Some("ok"@) ==> res == Some(data),
        data.str_field("status"@) != Some("ok"@) ==> res is None,
{
    let ok = match data.get_str("status") {
        Some(s) => crate::text::text_eq(s, "ok"),
        None => false,
    };
    if ok {
        Some(data)
    } else {
        None
    }
}

/// Where `/v1` sends `payload`: a command that starts with `sessions.` goes to
/// one solver, anything else to the race.
pub fn dispatch(payload: &Json) -> (res: Dispatch)
    ensures
        res == if "sessions."@.is_prefix_of(command_of(*payload)) {
            Dispatch::Session
        } else {
            Dispatch::Race
        },
{
    let cmd = match payload.get_str("cmd") {
        Some(c) => c,
        None => "",
    };
    proof {
        reveal_strlit("");
    }
    if starts_with(cmd, "sessions.") {
        Dispatch::Session
    } else {
        Dispatch::Race
    }
}

/// The enabled solvers, in their configured order.
pub fn enabled_solvers(solvers: &Vec<SolverConfig>) -> (res: Vec<SolverConfig>)
    ensures
        solvers_view(res@) == enabled_only(solvers_view(solvers@)),
{
    let mut out: Vec<SolverConfig> = Vec::new();
    let n = solvers.len();
    let mut i: usize = 0;
    while i < n
        invariant
            n == solvers@.len(),
            i <= n,
            solvers_view(out@) == enabled_only(solvers_view(solvers@.take(i as int))),
        decreases n - i,
    {
        proof {
            assert(solvers_view(solvers@.take(i + 1)).drop_last() =~= solvers_view(
                solvers@.take(i as int),
            ));
            assert(solvers_view(solvers@.take(i + 1)).last() == solvers@[i as int].view_of());
        }
        if solvers[i].enabled {
            let ghost before = out@;
            out.push(solvers[i].duplicate());
            assert(solvers_view(out@) =~= solvers_view(before).push(solvers@[i as int].view_of()));
        }
        i = i + 1;
    }
    assert(solvers@.take(n as int) =~= solvers@);
    out
}

/// The position of the first enabled solver.
pub fn first_enabled(solvers: &Vec<SolverConfig>) -> (res: Option<usize>)
    ensures
        match res {
            Some(i) => i < solvers@.len() && solvers@[i as int].enabled && forall|j: int|
                0 <= j < i ==> !(#[trigger] solvers@[j]).enabled,
            None => forall|j: int| 0 <= j < solvers@.len() ==> !(#[trigger] solvers@[j]).enabled,
        },
{
    let n = solvers.len();
    let mut i: usize = 0;
    while i < n
        invariant
            n == solvers@.len(),
            i <= n,
            forall|j: int| 0 <= j < i ==> !(#[trigger] solvers@[j]).enabled,
        decreases n - i,
    {
        if solvers[i].enabled {
            return Some(i);
        }
        i = i + 1;
    }
    None
}

/// The solver a session command goes to: the first enabled one, or a
/// `503` answer where none is enabled.
pub fn session_solver(solvers: &Vec<SolverConfig>) -> (res: Result<usize, Reply>)
    ensures
        match res {
            Ok(i) => i < solvers@.len() && solvers@[i as int].enabled && forall|j: int|
                0 <= j < i ==> !(#[trigger] solvers@[j]).enabled,
            Err(r) => (forall|j: int| 0 <= j < solvers@.len() ==> !(#[trigger] solvers@[j]).enabled)
                && r.status == SERVICE_UNAVAILABLE && is_status_body(
                r.body,
                "error"@,
                "No enabled solvers"@,
            ),
        },
{
    match first_enabled(solvers) {
        Some(i) => Ok(i),
        None => Err(error_reply(SERVICE_UNAVAILABLE, "No enabled solvers")),
    }
}

/// The solvers raced are exactly the enabled ones, in order: the filter of the
/// configured solvers by being enabled. So every enabled solver takes part,
/// every solver that takes part is enabled, and their number is the number
/// of enabled solvers.
pub proof fn lemma_enabled_only_is_filter(s: Seq<SolverView>)
    ensures
        enabled_only(s) == s.filter(|v: SolverView| v.2),
        forall|i: int| 0 <= i < s.len() && s[i].2 ==> enabled_only(s).contains(#[trigger] s[i]),
        forall|i: int| 0 <= i < enabled_only(s).len() ==> (#[trigger] enabled_only(s)[i]).2,
    decreases s.len(),
{
    reveal_with_fuel(Seq::<SolverView>::filter, 1);
    if s.len() > 0 {
        lemma_enabled_only_is_filter(s.drop_last());
    }
    s.filter_lemma(|v: SolverView| v.2);
}

/// The solver is told to give up the margin before the race does: for a race
/// of at least the margin, the solver's timeout plus the margin is the race
/// timeout; for a shorter race it is zero.
pub proof fn lemma_solver_timeout(race_timeout_ms: u64)
    ensures
        race_timeout_ms >= 2000 ==> solver_timeout_of(race_timeout_ms) + 2000 == race_timeout_ms,
        race_timeout_ms < 2000 ==> solver_timeout_of(race_timeout_ms) == 0,
{
}

/// The command of a payload is its `cmd` string, or empty where it has none.
pub proof fn lemma_command_of(payload: Json)
    ensures
        payload.str_field("cmd"@) matches Some(c) ==> command_of(payload) == c,
        payload.str_field("cmd"@) is None ==> command_of(payload).len() == 0,
{
}

/// The timeout a payload asks for is its `maxTimeout` where that is an
/// unsigned integer, and no limit otherwise.
pub proof fn lemma_asked_timeout(payload: Json)
    ensures
        payload.u64_field("maxTimeout"@) matches Some(t) ==> asked_timeout(payload) == t,
        payload.u64_field("maxTimeout"@) is None ==> asked_timeout(payload) == u64::MAX,
{
}

/// The first enabled solver leads the race: where the `i`-th solver is the
/// first enabled one, the solvers raced begin with it; and no solver is raced
/// exactly when none is enabled.
pub proof fn lemma_first_enabled_leads(s: Seq<SolverView>, i: int)
    requires
        0 <= i < s.len(),
        s[i].2,
        forall|j: int| 0 <= j < i ==> !(#[trigger] s[j]).2,
    ensures
        enabled_only(s).len() > 0,
        enabled_only(s)[0] == s[i],
    decreases s.len(),
{
    if i == s.len() - 1 {
        lemma_none_enabled(s.drop_last());
        assert(enabled_only(s) == enabled_only(s.drop_last()).push(s.last()));
    } else {
        assert forall|j: int| 0 <= j < i implies !(#[trigger] s.drop_last()[j]).2 by {
            assert(s.drop_last()[j] == s[j]);
        }
        lemma_first_enabled_leads(s.drop_last(), i);
    }
}

/// No solver is raced where none is enabled, and conversely.
pub proof fn lemma_none_enabled(s: Seq<SolverView>)
    ensures
        (enabled_only(s).len() == 0) <==> forall|j: int| 0 <= j < s.len() ==> !(#[trigger] s[j]).2,
    decreases s.len(),
{
    if s.len() > 0 {
        lemma_none_enabled(s.drop_last());
        assert forall|j: int| 0 <= j < s.len() - 1 implies s.drop_last()[j] == s[j] by {}
        if forall|j: int| 0 <= j < s.len() ==> !(#[trigger] s[j]).2 {
            assert(!s[s.len() - 1].2);
        }
    }
}

/// An error answer: `{"status": "error", "message": message}` with the code `status`.
pub fn error_reply(status: u16, message: &str) -> (res: Reply)
    ensures
        res.status == status,
        is_status_body(res.body, "error"@, message@),
{
    Reply { status, body: status_body("error", message) }
}

/// The object `{"status": status, "message": message}`.
fn status_body(status: &str, message: &str) -> (res: Json)
    ensures
        is_status_body(res, status@, message@),
{
    let mut body = Json::empty_object();
    body.insert(String::from_str("status"), Json::String(String::from_str(status)));
    body.insert(String::from_str("message"), Json::String(String::from_str(message)));
    proof {
        reveal_strlit("status");
        reveal_strlit("message");
        assert("status"@.len() != "message"@.len());
    }
    body
}

/// The answer when no solver solved the request: a `502` whose message gives
/// the time spent, `elapsed` being that time already written out in seconds.
pub fn race_failed_reply(elapsed: &str) -> (res: Reply)
    ensures
        res.status == BAD_GATEWAY,
        is_status_body(
            res.body,
            "error"@,
            "All solvers failed or timed out after "@ + elapsed@ + "s"@,
        ),
{
    let mut message = String::from_str("All solvers failed or timed out after ");
    message.append(elapsed);
    message.append("s");
    error_reply(BAD_GATEWAY, message.as_str())
}

/// The health report: `status` `ok`, the `version`, and each configured solver
/// with its name, URL and whether it is enabled.
pub fn health_report(version: &str, solvers: &Vec<SolverConfig>) -> (res: Json)
    ensures
        res is Object,
        res.member_count() == 3,
        res.distinct_keys(),
        res.str_field("status"@) == Some("ok"@),
        res.str_field("version"@) == Some(version@),
        match res.field("solvers"@) {
            Some(Json::Array(items)) => items@.len() == solvers@.len() && forall|i: int|
                0 <= i < items@.len() ==> is_solver_entry(#[trigger] items@[i], solvers@[i]),
            _ => false,
        },
{
    let mut items: Vec<Json> = Vec::new();
    let n = solvers.len();
    let mut i: usize = 0;
    while i < n
        invariant
            n == solvers@.len(),
            i <= n,
            items@.len() == i,
            forall|j: int| 0 <= j < i ==> is_solver_entry(#[trigger] items@[j], solvers@[j]),
        decreases n - i,
    {
        let s = &solvers[i];
        let mut item = Json::empty_object();
        item.insert(String::from_str("name"), Json::String(s.name.clone()));
        item.insert(String::from_str("url"), Json::String(s.url.clone()));
        item.insert(String::from_str("enabled"), Json::Bool(s.enabled));
        proof {
            reveal_strlit("name");
            reveal_strlit("url");
            reveal_strlit("enabled");
            assert("name"@.len() != "url"@.len());
            assert("name"@.len() != "enabled"@.len());
            assert("url"@.len() != "enabled"@.len());
        }
        items.push(item);
        i = i + 1;
    }
    let mut report = Json::empty_object();
    report.insert(String::from_str("status"), Json::String(String::from_str("ok")));
    report.insert(String::from_str("version"), Json::String(String::from_str(version)));
    report.insert(String::from_str("solvers"), Json::Array(items));
    proof {
        reveal_strlit("status");
        reveal_strlit("version");
        reveal_strlit("solvers");
        assert("status"@.len() != "version"@.len());
        assert("status"@.len() != "solvers"@.len());
        assert("version"@[0] != "solvers"@[0]);
    }
    report
}

} // verus!
