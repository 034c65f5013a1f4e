//! The aggregator's configuration: where it listens, how long a race may last,
//! and which solvers it fans requests out to.
use vstd::prelude::*;

use crate::text::{
    decimal_string, decimal_text, lowercase, parse_u16, parse_u64, parse_unsigned, text_eq,
    to_lowercase,
};

verus! {

/// One solver endpoint.
#[derive(Clone, Debug)]
pub struct SolverConfig {
    pub name: String,
    pub url: String,
    pub enabled: bool,
}

/// The aggregator's configuration.
#[derive(Debug)]
pub struct AppConfig {
    pub host: String,
    pub port: u16,
    pub race_timeout_ms: u64,
    pub solvers: Vec<SolverConfig>,
}

/// The values of `SOLVER_n_NAME`, `SOLVER_n_URL` and `SOLVER_n_ENABLED` for one `n`.
pub struct SolverSlotVars {
    pub name: Option<String>,
    pub url: Option<String>,
    pub enabled: Option<String>,
}

/// The values of the environment variables the configuration is read from;
/// `None` where a variable is not set. `slots[n]` holds the variables of the
/// numbered solver `n`; only the slots below [`SOLVER_SLOTS`] are read.
pub struct ConfigVars {
    pub host: Option<String>,
    pub port: Option<String>,
    pub race_timeout_ms: Option<String>,
    pub slots: Vec<SolverSlotVars>,
    pub flaresolverr_url: Option<String>,
    pub byparr_url: Option<String>,
    pub cf_clearance_url: Option<String>,
}

/// How many numbered solver slots are scanned (`SOLVER_0_*` to `SOLVER_9_*`).
pub const SOLVER_SLOTS: usize = 10;

/// The port listened on when `PORT` is unset or not a port number.
pub const DEFAULT_LISTEN_PORT: u16 = 8191;

/// The race timeout when `RACE_TIMEOUT_MS` is unset or not a number.
pub const DEFAULT_RACE_TIMEOUT_MS: u64 = 60000;

/// A solver as the contracts see it: name, URL, and whether it is enabled.
pub type SolverView = (Seq<char>, Seq<char>, bool);

impl SolverConfig {
    pub open spec fn view_of(self) -> SolverView {
        (self.name@, self.url@, self.enabled)
    }

    /// A copy of this solver.
    pub fn duplicate(&self) -> (res: SolverConfig)
        ensures
            res.view_of() == self.view_of(),
    {
        SolverConfig { name: self.name.clone(), url: self.url.clone(), enabled: self.enabled }
    }
}

pub open spec fn solvers_view(v: Seq<SolverConfig>) -> Seq<SolverView> {
    v.map_values(|s: SolverConfig| s.view_of())
}

/// A lower-cased `SOLVER_n_ENABLED` value that turns the solver off.
pub open spec fn disables(lowered: Seq<char>) -> bool {
    lowered == "false"@ || lowered == "0"@ || lowered == "no"@
}

/// Whether a solver with this `SOLVER_n_ENABLED` value is enabled: unless the
/// value is `false`, `0` or `no` in any case.
pub open spec fn enabled_by(v: Option<String>) -> bool {
    match v {
        None => true,
        Some(s) => !disables(lowercase(s@)),
    }
}

/// The solver a numbered slot describes: one where both its name and URL are set.
pub open spec fn slot_solver(slot: SolverSlotVars) -> Option<SolverView> {
    match (slot.name, slot.url) {
        (Some(name), Some(url)) => Some((name@, url@, enabled_by(slot.enabled))),
        _ => None,
    }
}

/// The solvers that the numbered slots describe, in slot order, skipping gaps.
pub open spec fn numbered_solvers(slots: Seq<SolverSlotVars>) -> Seq<SolverView>
    decreases slots.len(),
{
    if slots.len() == 0 {
        Seq::empty()
    } else {
        let before = numbered_solvers(slots.drop_last());
        match slot_solver(slots.last()) {
            Some(s) => before.push(s),
            None => before,
        }
    }
}

/// The well-known solvers, used when no numbered solver is set: `flaresolverr`,
/// `byparr` and `cf-clearance`, each where its URL variable is set, all enabled.
pub open spec fn well_known_solvers(
    flaresolverr: Option<String>,
    byparr: Option<String>,
    cf_clearance: Option<String>,
) -> Seq<SolverView> {
    let a = match flaresolverr {
        Some(u) => seq![("flaresolverr"@, u@, true)],
        None => Seq::empty(),
    };
    let b = match byparr {
        Some(u) => a.push(("byparr"@, u@, true)),
        None => a,
    };
    match cf_clearance {
        Some(u) => b.push(("cf-clearance"@, u@, true)),
        None => b,
    }
}

/// The slots that are scanned: the first [`SOLVER_SLOTS`] of them.
pub open spec fn scanned_slots(slots: Seq<SolverSlotVars>) -> Seq<SolverSlotVars> {
    if slots.len() <= SOLVER_SLOTS {
        slots
    } else {
        slots.take(SOLVER_SLOTS as int)
    }
}

/// The solvers that the environment `vars` configures.
pub open spec fn configured_solvers(vars: ConfigVars) -> Seq<SolverView> {
    let numbered = numbered_solvers(scanned_slots(vars.slots@));
    if numbered.len() > 0 {
        numbered
    } else {
        well_known_solvers(vars.flaresolverr_url, vars.byparr_url, vars.cf_clearance_url)
    }
}

/// Numbered solvers take precedence: where some scanned slot sets both a name
/// and a URL, the configured solvers are the numbered ones, and the well-known
/// variables are not read.
pub proof fn lemma_numbered_take_precedence(vars: ConfigVars, k: int)
    requires
        0 <= k < vars.slots@.len(),
        k < SOLVER_SLOTS,
        slot_solver(vars.slots@[k]) is Some,
    ensures
        configured_solvers(vars) == numbered_solvers(scanned_slots(vars.slots@)),
        numbered_solvers(scanned_slots(vars.slots@)).len() > 0,
{
    assert(scanned_slots(vars.slots@)[k] == vars.slots@[k]);
    lemma_numbered_nonempty(scanned_slots(vars.slots@), k);
}

proof fn lemma_numbered_nonempty(slots: Seq<SolverSlotVars>, k: int)
    requires
        0 <= k < slots.len(),
        slot_solver(slots[k]) is Some,
    ensures
        numbered_solvers(slots).len() > 0,
    decreases slots.len(),
{
    if k < slots.len() - 1 {
        assert(slots.drop_last()[k] == slots[k]);
        lemma_numbered_nonempty(slots.drop_last(), k);
    }
}

/// A solver is enabled unless its `ENABLED` value, lower-cased, is one of
/// `false`, `0` and `no`; an unset value leaves it enabled.
pub proof fn lemma_enabled_words(value: String)
    ensures
        enabled_by(None),
        lowercase(value@) == "false"@ ==> !enabled_by(Some(value)),
        lowercase(value@) == "0"@ ==> !enabled_by(Some(value)),
        lowercase(value@) == "no"@ ==> !enabled_by(Some(value)),
        !enabled_by(Some(value)) ==> lowercase(value@) == "false"@ || lowercase(value@) == "0"@
            || lowercase(value@) == "no"@,
{
}

/// 1 where the variable is set, 0 where it is not.
pub open spec fn set_count(v: Option<String>) -> nat {
    if v is Some {
        1
    } else {
        0
    }
}

/// Each well-known URL variable that is set adds its own solver, whatever the
/// others are: one enabled solver per variable set, `flaresolverr` first,
/// then `byparr`, then `cf-clearance`, each with the URL of its variable.
pub proof fn lemma_well_known_solvers(
    flaresolverr: Option<String>,
    byparr: Option<String>,
    cf_clearance: Option<String>,
)
    ensures
        well_known_solvers(flaresolverr, byparr, cf_clearance).len() == set_count(flaresolverr)
            + set_count(byparr) + set_count(cf_clearance),
        forall|i: int|
            0 <= i < well_known_solvers(flaresolverr, byparr, cf_clearance).len()
                ==> (#[trigger] well_known_solvers(flaresolverr, byparr, cf_clearance)[i]).2,
        flaresolverr matches Some(u) ==> well_known_solvers(flaresolverr, byparr, cf_clearance)[0]
            == ("flaresolverr"@, u@, true),
        byparr matches Some(u) ==> well_known_solvers(flaresolverr, byparr, cf_clearance)[set_count(
            flaresolverr,
        ) as int] == ("byparr"@, u@, true),
        cf_clearance matches Some(u) ==> well_known_solvers(flaresolverr, byparr, cf_clearance)[(
        set_count(flaresolverr) + set_count(byparr)) as int] == ("cf-clearance"@, u@, true),
{
}

/// Without a numbered solver the well-known ones are used: where no scanned
/// slot sets both a name and a URL, the configured solvers are exactly the
/// well-known ones.
pub proof fn lemma_fallback_without_numbered(vars: ConfigVars)
    requires
        forall|k: int|
            0 <= k < scanned_slots(vars.slots@).len() ==> !((#[trigger] scanned_slots(
                vars.slots@,
            )[k]).name is Some && scanned_slots(vars.slots@)[k].url is Some),
    ensures
        configured_solvers(vars) == well_known_solvers(
            vars.flaresolverr_url,
            vars.byparr_url,
            vars.cf_clearance_url,
        ),
{
    lemma_numbered_empty(scanned_slots(vars.slots@));
}

proof fn lemma_numbered_empty(slots: Seq<SolverSlotVars>)
    requires
        forall|k: int|
            0 <= k < slots.len() ==> !((#[trigger] slots[k]).name is Some && slots[k].url is Some),
    ensures
        numbered_solvers(slots).len() == 0,
    decreases slots.len(),
{
    if slots.len() > 0 {
        assert forall|k: int| 0 <= k < slots.drop_last().len() implies !((
        #[trigger] slots.drop_last()[k]).name is Some && slots.drop_last()[k].url is Some) by {
            assert(slots.drop_last()[k] == slots[k]);
        }
        assert(slots.last() == slots[slots.len() - 1]);
        lemma_numbered_empty(slots.drop_last());
    }
}

/// Every slot that sets both a name and a URL gives a solver of that name and
/// URL, enabled unless its `ENABLED` value turns it off.
pub proof fn lemma_numbered_keeps_set_slots(slots: Seq<SolverSlotVars>, k: int)
    requires
        0 <= k < slots.len(),
        slots[k].name is Some,
        slots[k].url is Some,
    ensures
        numbered_solvers(slots).contains(
            (slots[k].name->0@, slots[k].url->0@, enabled_by(slots[k].enabled)),
        ),
    decreases slots.len(),
{
    let x = (slots[k].name->0@, slots[k].url->0@, enabled_by(slots[k].enabled));
    if k == slots.len() - 1 {
        let n = numbered_solvers(slots);
        assert(n == numbered_solvers(slots.drop_last()).push(x));
        assert(n[n.len() - 1] == x);
    } else {
        assert(slots.drop_last()[k] == slots[k]);
        lemma_numbered_keeps_set_slots(slots.drop_last(), k);
        let m = numbered_solvers(slots.drop_last());
        let j = choose|j: int| 0 <= j < m.len() && m[j] == x;
        let n = numbered_solvers(slots);
        assert(n[j] == x);
    }
}

/// Every numbered solver comes from a slot that sets its name and URL.
pub proof fn lemma_numbered_from_slots(slots: Seq<SolverSlotVars>, i: int)
    requires
        0 <= i < numbered_solvers(slots).len(),
    ensures
        exists|k: int|
            0 <= k < slots.len() && (#[trigger] slots[k]).name is Some && slots[k].url is Some
                && numbered_solvers(slots)[i] == (
                slots[k].name->0@,
                slots[k].url->0@,
                enabled_by(slots[k].enabled),
            ),
    decreases slots.len(),
{
    let m = numbered_solvers(slots.drop_last());
    let l = slots.len() - 1;
    if i < m.len() {
        lemma_numbered_from_slots(slots.drop_last(), i);
        let k = choose|k: int|
            0 <= k < slots.drop_last().len() && (#[trigger] slots.drop_last()[k]).name is Some
                && slots.drop_last()[k].url is Some && m[i] == (
                slots.drop_last()[k].name->0@,
                slots.drop_last()[k].url->0@,
                enabled_by(slots.drop_last()[k].enabled),
            );
        assert(slots.drop_last()[k] == slots[k]);
        assert(numbered_solvers(slots)[i] == m[i]);
    } else {
        assert(slots.last() == slots[l]);
        assert(slots[l].name is Some && slots[l].url is Some);
    }
}

/// The address text `host:port`.
pub open spec fn address_text(host: Seq<char>, port: nat) -> Seq<char> {
    host + ":"@ + decimal_text(port)
}

/// Whether a `SOLVER_n_ENABLED` value leaves the solver enabled.
pub fn enabled_from(value: &Option<String>) -> (res: bool)
    ensures
        res == enabled_by(*value),
{
    match value {
        None => true,
        Some(s) => {
            let lowered = to_lowercase(s.as_str());
            !AppConfig::disabling_word(lowered.as_str())
        },
    }
}

impl AppConfig {
    /// Whether an already lower-cased `SOLVER_n_ENABLED` value turns a solver off.
    pub fn disabling_word(lowered: &str) -> (res: bool)
        ensures
            res == disables(lowered@),
    {
        text_eq(lowered, "false") || text_eq(lowered, "0") || text_eq(lowered, "no")
    }

    /// The configuration that the environment `vars` gives. Unset or unreadable
    /// numbers fall back to their defaults; the host defaults to `0.0.0.0`.
    pub fn from_env(vars: &ConfigVars) -> (res: AppConfig)
        ensures
            res.host@ == match vars.host {
                Some(h) => h@,
                None => "0.0.0.0"@,
            },
            res.port as nat == match vars.port {
                Some(p) => match parse_unsigned(p@, u16::MAX as nat) {
                    Some(v) => v,
                    None => DEFAULT_LISTEN_PORT as nat,
                },
                None => DEFAULT_LISTEN_PORT as nat,
            },
            res.race_timeout_ms as nat == match vars.race_timeout_ms {
                Some(t) => match parse_unsigned(t@, u64::MAX as nat) {
                    Some(v) => v,
                    None => DEFAULT_RACE_TIMEOUT_MS as nat,
                },
                None => DEFAULT_RACE_TIMEOUT_MS as nat,
            },
            solvers_view(res.solvers@) == configured_solvers(*vars),
    {
        let host = match &vars.host {
            Some(h) => h.clone(),
            None => String::from_str("0.0.0.0"),
        };
        let port = match &vars.port {
            Some(p) => match parse_u16(p.as_str()) {
                Some(v) => v,
                None => DEFAULT_LISTEN_PORT,
            },
            None => DEFAULT_LISTEN_PORT,
        };
        let race_timeout_ms = match &vars.race_timeout_ms {
            Some(t) => match parse_u64(t.as_str()) {
                Some(v) => v,
                None => DEFAULT_RACE_TIMEOUT_MS,
            },
            None => DEFAULT_RACE_TIMEOUT_MS,
        };
        let mut solvers = Self::numbered(&vars.slots);
        if solvers.len() == 0 {
            solvers = Self::well_known(
                &vars.flaresolverr_url,
                &vars.byparr_url,
                &vars.cf_clearance_url,
            );
        }
        AppConfig { host, port, race_timeout_ms, solvers }
    }

    fn numbered(slots: &Vec<SolverSlotVars>) -> (res: Vec<SolverConfig>)
        ensures
            solvers_view(res@) == numbered_solvers(scanned_slots(slots@)),
    {
        let mut out: Vec<SolverConfig> = Vec::new();
        let n = if slots.len() <= SOLVER_SLOTS {
            slots.len()
        } else {
            SOLVER_SLOTS
        };
        let mut i: usize = 0;
        while i < n
            invariant
                n <= slots@.len(),
                n == scanned_slots(slots@).len(),
                i <= n,
                solvers_view(out@) == numbered_solvers(slots@.take(i as int)),
            decreases n - i,
        {
            let slot = &slots[i];
            proof {
                assert(slots@.take(i + 1).drop_last() =~= slots@.take(i as int));
                assert(slots@.take(i + 1).last() == slots@[i as int]);
            }
            match (&slot.name, &slot.url) {
                (Some(name), Some(url)) => {
                    let enabled = enabled_from(&slot.enabled);
                    let s = SolverConfig { name: name.clone(), url: url.clone(), enabled };
                    let ghost before = out@;
                    out.push(s);
                    assert(solvers_view(out@) =~= solvers_view(before).push(s.view_of()));
                },
                _ => {},
            }
            i = i + 1;
        }
        assert(slots@.take(n as int) =~= scanned_slots(slots@));
        out
    }

    fn well_known(
        flaresolverr: &Option<String>,
        byparr: &Option<String>,
        cf_clearance: &Option<String>,
    ) -> (res: Vec<SolverConfig>)
        ensures
            solvers_view(res@) == well_known_solvers(*flaresolverr, *byparr, *cf_clearance),
    {
        let mut out: Vec<SolverConfig> = Vec::new();
        if let Some(u) = flaresolverr {
            out.push(
                SolverConfig { name: String::from_str("flaresolverr"), url: u.clone(), enabled: true },
            );
        }
        let ghost a = out@;
        assert(solvers_view(a) =~= match *flaresolverr {
            Some(u) => seq![("flaresolverr"@, u@, true)],
            None => Seq::<SolverView>::empty(),
        });
        if let Some(u) = byparr {
            out.push(SolverConfig { name: String::from_str("byparr"), url: u.clone(), enabled: true });
        }
        let ghost b = out@;
        assert(solvers_view(b) =~= match *byparr {
            Some(u) => solvers_view(a).push(("byparr"@, u@, true)),
            None => solvers_view(a),
        });
        if let Some(u) = cf_clearance {
            out.push(
                SolverConfig { name: String::from_str("cf-clearance"), url: u.clone(), enabled: true },
            );
        }
        assert(solvers_view(out@) =~= match *cf_clearance {
            Some(u) => solvers_view(b).push(("cf-clearance"@, u@, true)),
            None => solvers_view(b),
        });
        out
    }

    /// The address the service binds, `host:port`.
    pub fn listen_address(&self) -> (res: String)
        ensures
            res@ == address_text(self.host@, self.port as nat),
    {
        let mut out = self.host.clone();
        out.append(":");
        out.append(decimal_string(self.port as u64).as_str());
        out
    }
}

} // verus!
