//! The decisions of a proxy that fans a challenge-solving request out to several
//! solver endpoints and answers with the first one that succeeds.
pub mod text;
pub mod json;
pub mod options;
pub mod config;
pub mod race;
pub mod proxy;
pub mod solvers;
pub mod api;
pub mod router;
