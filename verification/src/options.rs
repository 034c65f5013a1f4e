//! The service's options, read from the values of its environment variables
//! `LOG_LEVEL`, `PORT`, `FLARESOLVERR_URL` and `BYPARR_URL`.
use vstd::prelude::*;

use url::ParseError;

use crate::text::{lowercase, parse_u16, parse_unsigned, text_eq, to_lowercase};

verus! {

/// Why a text is not an absolute URL: the kinds of `url::ParseError`, one for
/// one, and `Other` for a kind added to that crate later.
#[derive(Clone, Copy, Debug, PartialEq, Eq, Structural)]
pub enum UrlError {
    EmptyHost,
    IdnaError,
    InvalidPort,
    InvalidIpv4Address,
    InvalidIpv6Address,
    InvalidDomainCharacter,
    RelativeUrlWithoutBase,
    RelativeUrlWithCannotBeABaseBase,
    SetHostOnCannotBeABaseUrl,
    Overflow,
    Other,
}

/// How much the service logs.
#[derive(Clone, Copy, Debug, PartialEq, Eq, Structural)]
pub enum LogLevel {
    Trace,
    Info,
    Warn,
    Error,
}

/// Why the environment could not be turned into options.
#[derive(Clone, Debug)]
pub enum EnvError {
    /// `LOG_LEVEL` is not one of `debug`, `trace`, `info`, `warning`, `error`.
    InvalidLogLevel { log_level: String },
    /// `PORT` is not a 16 bit unsigned integer.
    InvalidPort { port: String },
    /// `FLARESOLVERR_URL` is not an absolute URL.
    InvalidFlaresolverrUrl { url: String, error: UrlError },
    /// `BYPARR_URL` is not an absolute URL.
    InvalidByparrUrl { url: String, error: UrlError },
}

/// The values of the environment variables the options are read from; `None`
/// where a variable is not set.
pub struct EnvVars {
    pub log_level: Option<String>,
    pub port: Option<String>,
    pub flaresolverr_url: Option<String>,
    pub byparr_url: Option<String>,
}

/// The service's options. A solver URL is held as the serialization that
/// `url::Url` gives of it.
#[derive(Clone, Debug)]
pub struct EnvOptions {
    pub log_level: LogLevel,
    pub port: u16,
    pub flaresolverr_url: Option<String>,
    pub byparr_url: Option<String>,
}

/// The port the service listens on when `PORT` is not set.
pub const DEFAULT_PORT: u16 = 8191;

/// What `url::Url::parse` gives for the text `input`: the serialization of the
/// parsed URL, or the kind of the error it returns. A function of `input` alone.
pub uninterp spec fn url_parse(input: Seq<char>) -> Result<Seq<char>, UrlError>;

/// Calls `url::Url::parse` and hands back the parsed URL's serialization
/// (`String::from(url)`), or the kind of the crate's error.
#[verifier::external_body]
fn parse_url(input: &str) -> (res: Result<String, UrlError>)
    ensures
        match res {
            Ok(s) => url_parse(input@) == Ok::<Seq<char>, UrlError>(s@),
            Err(e) => url_parse(input@) == Err::<Seq<char>, UrlError>(e),
        },
{
    match url::Url::parse(input) {
        Ok(u) => Ok(String::from(u)),
        Err(ParseError::EmptyHost) => Err(UrlError::EmptyHost),
        Err(ParseError::IdnaError) => Err(UrlError::IdnaError),
        Err(ParseError::InvalidPort) => Err(UrlError::InvalidPort),
        Err(ParseError::InvalidIpv4Address) => Err(UrlError::InvalidIpv4Address),
        Err(ParseError::InvalidIpv6Address) => Err(UrlError::InvalidIpv6Address),
        Err(ParseError::InvalidDomainCharacter) => Err(UrlError::InvalidDomainCharacter),
        Err(ParseError::RelativeUrlWithoutBase) => Err(UrlError::RelativeUrlWithoutBase),
        Err(ParseError::RelativeUrlWithCannotBeABaseBase) => Err(UrlError::RelativeUrlWithCannotBeABaseBase),
        Err(ParseError::SetHostOnCannotBeABaseUrl) => Err(UrlError::SetHostOnCannotBeABaseUrl),
        Err(ParseError::Overflow) => Err(UrlError::Overflow),
        Err(_) => Err(UrlError::Other),
    }
}

/// The view of an optional string.
pub open spec fn opt_view(o: Option<String>) -> Option<Seq<char>> {
    match o {
        Some(s) => Some(s@),
        None => None,
    }
}

/// The level a lower-cased `LOG_LEVEL` value names.
pub open spec fn level_named(lowered: Seq<char>) -> Option<LogLevel> {
    if lowered == "debug"@ || lowered == "trace"@ {
        Some(LogLevel::Trace)
    } else if lowered == "info"@ {
        Some(LogLevel::Info)
    } else if lowered == "warning"@ {
        Some(LogLevel::Warn)
    } else if lowered == "error"@ {
        Some(LogLevel::Error)
    } else {
        None
    }
}

/// A `LOG_LEVEL` value is accepted: unset, or naming a level in any case.
pub open spec fn log_level_accepted(v: Option<String>) -> bool {
    match v {
        None => true,
        Some(s) => level_named(lowercase(s@)) is Some,
    }
}

/// The level that an accepted `LOG_LEVEL` value gives: `Info` where it is unset.
pub open spec fn log_level_of(v: Option<String>) -> LogLevel {
    match v {
        None => LogLevel::Info,
        Some(s) => level_named(lowercase(s@)).unwrap(),
    }
}

/// A `PORT` value is accepted: unset, or a 16 bit unsigned integer.
pub open spec fn port_accepted(v: Option<String>) -> bool {
    match v {
        None => true,
        Some(s) => parse_unsigned(s@, u16::MAX as nat) is Some,
    }
}

/// The port that an accepted `PORT` value gives: 8191 where it is unset.
pub open spec fn port_of(v: Option<String>) -> nat {
    match v {
        None => DEFAULT_PORT as nat,
        Some(s) => parse_unsigned(s@, u16::MAX as nat).unwrap(),
    }
}

/// A solver URL variable is accepted: unset, empty, or an absolute URL.
pub open spec fn url_accepted(v: Option<String>) -> bool {
    match v {
        None => true,
        Some(s) => s@.len() == 0 || url_parse(s@) is Ok,
    }
}

/// The solver URL that an accepted variable gives: none where it is unset or
/// empty, else the serialization of the parsed URL.
pub open spec fn url_of(v: Option<String>) -> Option<Seq<char>> {
    match v {
        None => None,
        Some(s) => if s@.len() == 0 {
            None
        } else {
            match url_parse(s@) {
                Ok(u) => Some(u),
                Err(_) => None,
            }
        },
    }
}

/// What each variable gives: unset variables give the defaults (level `Info`,
/// port 8191, no solver URL); a set `PORT` gives the number it writes; a
/// solver URL that is empty gives none, and one that parses gives its
/// serialization, while one that does not parse is refused.
pub proof fn lemma_variable_values(port: String, url: String)
    ensures
        log_level_accepted(None) && log_level_of(None) == LogLevel::Info,
        port_accepted(None) && port_of(None) == 8191,
        url_accepted(None) && url_of(None) is None,
        parse_unsigned(port@, u16::MAX as nat) matches Some(v) ==> port_accepted(Some(port))
            && port_of(Some(port)) == v,
        parse_unsigned(port@, u16::MAX as nat) is None ==> !port_accepted(Some(port)),
        url@.len() == 0 ==> url_accepted(Some(url)) && url_of(Some(url)) is None,
        url@.len() > 0 ==> (url_parse(url@) matches Ok(u) ==> url_accepted(Some(url)) && url_of(
            Some(url),
        ) == Some(u)),
        url@.len() > 0 ==> (url_parse(url@) is Err ==> !url_accepted(Some(url))),
{
}

/// The level names: `debug` and `trace` name `Trace`, `info` names `Info`,
/// `warning` names `Warn`, `error` names `Error`, and nothing else names a level.
pub proof fn lemma_level_names(lowered: Seq<char>)
    ensures
        level_named("debug"@) == Some(LogLevel::Trace),
        level_named("trace"@) == Some(LogLevel::Trace),
        level_named("info"@) == Some(LogLevel::Info),
        level_named("warning"@) == Some(LogLevel::Warn),
        level_named("error"@) == Some(LogLevel::Error),
        level_named(lowered) is Some ==> lowered == "debug"@ || lowered == "trace"@ || lowered
            == "info"@ || lowered == "warning"@ || lowered == "error"@,
{
    reveal_strlit("debug");
    reveal_strlit("trace");
    reveal_strlit("info");
    reveal_strlit("warning");
    reveal_strlit("error");
    assert("info"@.len() != "debug"@.len() && "info"@.len() != "trace"@.len());
    assert("warning"@.len() != "debug"@.len() && "warning"@.len() != "trace"@.len()
        && "warning"@.len() != "info"@.len());
    assert("error"@[0] != "debug"@[0] && "error"@[0] != "trace"@[0]);
    assert("error"@.len() != "info"@.len() && "error"@.len() != "warning"@.len());
}

impl EnvOptions {
    /// The options that the environment `vars` gives. The variables are checked
    /// in the order `LOG_LEVEL`, `PORT`, `FLARESOLVERR_URL`, `BYPARR_URL`, and
    /// the first one refused is reported.
    pub fn from_env(vars: &EnvVars) -> (res: Result<EnvOptions, EnvError>)
        ensures
            res is Ok <==> log_level_accepted(vars.log_level) && port_accepted(vars.port)
                && url_accepted(vars.flaresolverr_url) && url_accepted(vars.byparr_url),
            res matches Ok(o) ==> {
                &&& o.log_level == log_level_of(vars.log_level)
                &&& o.port as nat == port_of(vars.port)
                &&& opt_view(o.flaresolverr_url) == url_of(vars.flaresolverr_url)
                &&& opt_view(o.byparr_url) == url_of(vars.byparr_url)
            },
            res matches Err(e) ==> {
                &&& !log_level_accepted(vars.log_level) ==> (e matches EnvError::InvalidLogLevel {
                    log_level,
                } && Some(log_level@) == opt_view(vars.log_level))
                &&& log_level_accepted(vars.log_level) && !port_accepted(vars.port) ==> (e matches EnvError::InvalidPort { port } && Some(port@) == opt_view(vars.port))
                &&& log_level_accepted(vars.log_level) && port_accepted(vars.port)
                    && !url_accepted(vars.flaresolverr_url) ==> (e matches EnvError::InvalidFlaresolverrUrl {
                    url,
                    error,
                } && Some(url@) == opt_view(vars.flaresolverr_url) && url_parse(url@) == Err::<
                    Seq<char>,
                    UrlError,
                >(error))
                &&& log_level_accepted(vars.log_level) && port_accepted(vars.port)
                    && url_accepted(vars.flaresolverr_url) && !url_accepted(vars.byparr_url) ==> (e matches EnvError::InvalidByparrUrl { url, error } && Some(url@) == opt_view(
                    vars.byparr_url,
                ) && url_parse(url@) == Err::<Seq<char>, UrlError>(error))
            },
    {
        let default = EnvOptions::default();
        let log_level = match Self::parse_log_level(&vars.log_level) {
            Ok(l) => l,
            Err(e) => return Err(e),
        };
        let port = match Self::parse_port(&vars.port) {
            Ok(p) => p,
            Err(e) => return Err(e),
        };
        let flaresolverr_url = match Self::parse_flaresolverr_url(&vars.flaresolverr_url) {
            Ok(u) => u,
            Err(e) => return Err(e),
        };
        let byparr_url = match Self::parse_byparr_url(&vars.byparr_url) {
            Ok(u) => u,
            Err(e) => return Err(e),
        };
        Ok(EnvOptions {
            log_level: match log_level {
                Some(l) => l,
                None => default.log_level,
            },
            port: match port {
                Some(p) => p,
                None => default.port,
            },
            flaresolverr_url,
            byparr_url,
        })
    }

    /// The level that an already lower-cased `LOG_LEVEL` value names.
    pub fn level_from_lowercase(lowered: &str) -> (res: Option<LogLevel>)
        ensures
            res == level_named(lowered@),
    {
        if text_eq(lowered, "debug") || text_eq(lowered, "trace") {
            Some(LogLevel::Trace)
        } else if text_eq(lowered, "info") {
            Some(LogLevel::Info)
        } else if text_eq(lowered, "warning") {
            Some(LogLevel::Warn)
        } else if text_eq(lowered, "error") {
            Some(LogLevel::Error)
        } else {
            None
        }
    }

    /// Reads `LOG_LEVEL`: unset gives no level; a value names a level in any
    /// case (`debug` and `trace` both give `Trace`); any other value is refused
    /// with the text as it was given.
    pub fn parse_log_level(value: &Option<String>) -> (res: Result<Option<LogLevel>, EnvError>)
        ensures
            res is Ok <==> log_level_accepted(*value),
            res matches Ok(l) ==> match *value {
                None => l is None,
                Some(s) => l == level_named(lowercase(s@)),
            },
            res matches Err(e) ==> e matches EnvError::InvalidLogLevel { log_level } && Some(
                log_level@,
            ) == opt_view(*value),
    {
        match value {
            None => Ok(None),
            Some(s) => {
                let lowered = to_lowercase(s.as_str());
                match Self::level_from_lowercase(lowered.as_str()) {
                    Some(l) => Ok(Some(l)),
                    None => Err(EnvError::InvalidLogLevel { log_level: s.clone() }),
                }
            },
        }
    }

    /// Reads `PORT`: unset gives no port; a value must be a 16 bit unsigned
    /// integer as `str::parse::<u16>` reads it, and is refused with its text otherwise.
    pub fn parse_port(value: &Option<String>) -> (res: Result<Option<u16>, EnvError>)
        ensures
            res is Ok <==> port_accepted(*value),
            res matches Ok(p) ==> match *value {
                None => p is None,
                Some(s) => p is Some && p->0 as nat == parse_unsigned(s@, u16::MAX as nat)->0,
            },
            res matches Err(e) ==> e matches EnvError::InvalidPort { port } && Some(port@)
                == opt_view(*value),
    {
        match value {
            None => Ok(None),
            Some(s) => match parse_u16(s.as_str()) {
                Some(p) => Ok(Some(p)),
                None => Err(EnvError::InvalidPort { port: s.clone() }),
            },
        }
    }

    /// Reads `FLARESOLVERR_URL`: unset or empty gives no URL; a value is parsed
    /// by `url::Url::parse`, and refused with its text and the parse error otherwise.
    pub fn parse_flaresolverr_url(value: &Option<String>) -> (res: Result<Option<String>, EnvError>)
        ensures
            res is Ok <==> url_accepted(*value),
            res matches Ok(u) ==> opt_view(u) == url_of(*value),
            res matches Err(e) ==> e matches EnvError::InvalidFlaresolverrUrl { url, error }
                && Some(url@) == opt_view(*value) && url_parse(url@) == Err::<Seq<char>, UrlError>(
                error,
            ),
    {
        match value {
            None => Ok(None),
            Some(s) => {
                if s.as_str().unicode_len() == 0 {
                    return Ok(None);
                }
                match parse_url(s.as_str()) {
                    Ok(u) => Ok(Some(u)),
                    Err(error) => Err(EnvError::InvalidFlaresolverrUrl { url: s.clone(), error }),
                }
            },
        }
    }

    /// Reads `BYPARR_URL`: unset or empty gives no URL; a value is parsed by
    /// `url::Url::parse`, and refused with its text and the parse error otherwise.
    pub fn parse_byparr_url(value: &Option<String>) -> (res: Result<Option<String>, EnvError>)
        ensures
            res is Ok <==> url_accepted(*value),
            res matches Ok(u) ==> opt_view(u) == url_of(*value),
            res matches Err(e) ==> e matches EnvError::InvalidByparrUrl { url, error } && Some(url@)
                == opt_view(*value) && url_parse(url@) == Err::<Seq<char>, UrlError>(error),
    {
        match value {
            None => Ok(None),
            Some(s) => {
                if s.as_str().unicode_len() == 0 {
                    return Ok(None);
                }
                match parse_url(s.as_str()) {
                    Ok(u) => Ok(Some(u)),
                    Err(error) => Err(EnvError::InvalidByparrUrl { url: s.clone(), error }),
                }
            },
        }
    }

    /// Whether some solver URL is set; without one the service warns at start.
    pub fn has_solver_url(&self) -> (res: bool)
        ensures
            res == (self.flaresolverr_url is Some || self.byparr_url is Some),
    {
        self.flaresolverr_url.is_some() || self.byparr_url.is_some()
    }
}

impl Default for EnvOptions {
    fn default() -> (res: EnvOptions)
        ensures
            res.log_level == LogLevel::Info,
            res.port == DEFAULT_PORT,
            res.flaresolverr_url is None,
            res.byparr_url is None,
    {
        EnvOptions {
            log_level: LogLevel::Info,
            port: DEFAULT_PORT,
            flaresolverr_url: None,
            byparr_url: None,
        }
    }
}

} // verus!
