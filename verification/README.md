# flaresolverr_aggregate

A service that puts several Cloudflare-challenge solvers (FlareSolverr, Byparr and
others that speak the FlareSolverr protocol) behind one `/v1` endpoint: a request is
raced over every enabled solver and answered with the first solution.

- `src/` is the verified library: configuration from environment values
  (`config`, `options`), the JSON model of payloads (`json`), the race between
  solvers (`race`), request preparation and the service's answers (`proxy`, `api`,
  `router`, `solvers`), and text helpers (`text`).
- `app/` is the program around it: it reads the environment, runs the HTTP server
  (axum), sends requests (reqwest), runs the solver tasks (tokio) and logs.
- `tests/` exercises the library on concrete values.
