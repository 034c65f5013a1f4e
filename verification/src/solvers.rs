//! The solver endpoints of the service and the choice among them.
use vstd::prelude::*;

use crate::json::Json;
use crate::options::{EnvOptions, opt_view};
use crate::proxy::solution_of;

verus! {

/// A solver that speaks the FlareSolverr protocol at one endpoint.
#[derive(Debug)]
pub struct FlareSolverrSolver {
    url: String,
}

impl FlareSolverrSolver {
    /// The endpoint this solver is reached at.
    pub closed spec fn endpoint(&self) -> Seq<char> {
        self.url@
    }

    /// A solver reached at `url`.
    pub fn new(url: String) -> (res: Self)
        ensures
            res.endpoint() == url@,
    {
        Self { url: url }
    }

    /// The endpoint this solver is reached at.
    pub fn url(&self) -> (res: &str)
        ensures
            res@ == self.endpoint(),
    {
        self.url.as_str()
    }

    /// What a `request` command gives from the solver's reply `data`: the reply
    /// itself where its `status` is `ok`, an error otherwise.
    pub fn request_outcome(data: Json) -> (res: Result<Json, ()>)
        ensures
            data.str_field("status"@) == Some("ok"@) ==> res == Ok::<Json, ()>(data),
            data.str_field("status"@) != Some("ok"@) ==> res is Err,
    {
        match solution_of(data) {
            Some(d) => Ok(d),
            None => Err(()),
        }
    }
}

/// The endpoints of a list of solvers, in order.
pub open spec fn endpoints(solvers: Seq<FlareSolverrSolver>) -> Seq<Seq<char>> {
    solvers.map_values(|s: FlareSolverrSolver| s.endpoint())
}

/// The endpoints that the options configure: FlareSolverr's, then Byparr's,
/// each where it is set.
pub open spec fn configured_endpoints(flaresolverr: Option<Seq<char>>, byparr: Option<Seq<char>>) -> Seq<Seq<char>> {
    let a = match flaresolverr {
        Some(u) => seq![u],
        None => Seq::empty(),
    };
    match byparr {
        Some(u) => a.push(u),
        None => a,
    }
}

/// One solver per URL set: FlareSolverr's endpoint first where it is set, then
/// Byparr's.
pub proof fn lemma_configured_endpoints(flaresolverr: Option<Seq<char>>, byparr: Option<Seq<char>>)
    ensures
        configured_endpoints(flaresolverr, byparr).len() == (if flaresolverr is Some {
            1int
        } else {
            0
        }) + (if byparr is Some {
            1int
        } else {
            0
        }),
        flaresolverr matches Some(u) ==> configured_endpoints(flaresolverr, byparr)[0] == u,
        byparr matches Some(u) ==> configured_endpoints(flaresolverr, byparr).last() == u,
{
}

/// The solvers the service sends requests to.
#[derive(Debug)]
pub struct SolversState {
    pub solvers: Vec<FlareSolverrSolver>,
}

impl SolversState {
    /// The solvers that `environment` configures.
    pub fn new(environment: &EnvOptions) -> (res: Self)
        ensures
            endpoints(res.solvers@) == configured_endpoints(
                opt_view(environment.flaresolverr_url),
                opt_view(environment.byparr_url),
            ),
    {
        let mut solvers: Vec<FlareSolverrSolver> = Vec::new();
        if let Some(flaresolverr_url) = &environment.flaresolverr_url {
            solvers.push(FlareSolverrSolver::new(flaresolverr_url.clone()));
        }
        let ghost a = solvers@;
        assert(endpoints(a) =~= match opt_view(environment.flaresolverr_url) {
            Some(u) => seq![u],
            None => Seq::<Seq<char>>::empty(),
        });
        if let Some(byparr_url) = &environment.byparr_url {
            solvers.push(FlareSolverrSolver::new(byparr_url.clone()));
        }
        assert(endpoints(solvers@) =~= match opt_view(environment.byparr_url) {
            Some(u) => endpoints(a).push(u),
            None => endpoints(a),
        });
        Self { solvers }
    }

    /// The solver a session command goes to: the first one, or an error where
    /// there is none.
    pub fn session_solver(&self) -> (res: Result<&FlareSolverrSolver, ()>)
        ensures
            match res {
                Ok(s) => self.solvers@.len() > 0 && *s == self.solvers@[0],
                Err(_) => self.solvers@.len() == 0,
            },
    {
        if self.solvers.len() == 0 {
            Err(())
        } else {
            Ok(&self.solvers[0])
        }
    }
}

} // verus!
