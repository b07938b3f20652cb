use vstd::prelude::*;
use crate::methods::{method_slot, slot_of_chars};
use crate::text::{chars_of, split_first, split_first_spec, string_of, trim_of, trimmed, upper_of, uppercased};

verus! {

/// Run configuration: load shape, target and request details.
#[derive(Clone)]
pub struct Config {
    pub workers: usize,
    pub requests: usize,
    pub timelimit: u64,
    pub keepalive: bool,
    pub timeout: u64,
    pub method: String,
    pub headers: Vec<String>,
    pub url: Option<String>,
    pub url_file: Option<String>,
    pub body_file: Option<String>,
    pub content_type: String,
    pub min_size: usize,
    pub max_size: usize,
}

/// Why a configuration cannot run.
#[derive(Clone, Copy, Debug, PartialEq, Eq, Structural)]
pub enum ConfigError {
    /// Neither a time limit nor a request count.
    NoLoadLimit,
    /// Neither a URL nor a URL file.
    NoTarget,
    /// Both a URL and a URL file.
    BothTargets,
    /// No workers.
    NoWorkers,
    /// The smallest body size exceeds the largest.
    SizeRange,
    /// A method other than GET, POST, PUT, DELETE and HEAD.
    UnsupportedMethod,
}

impl ConfigError {
    /// The sentence that describes each error.
    pub open spec fn message_spec(&self) -> Seq<char> {
        match self {
            ConfigError::NoLoadLimit => "Either timelimit (-t) or number of requests (-n) must be specified"@,
            ConfigError::NoTarget => "Either URL or URL file (-f) must be specified"@,
            ConfigError::BothTargets => "Cannot specify both URL and URL file"@,
            ConfigError::NoWorkers => "Number of workers must be greater than 0"@,
            ConfigError::SizeRange => "Minimum size cannot be greater than maximum size"@,
            ConfigError::UnsupportedMethod => "Unsupported HTTP method"@,
        }
    }

    /// A sentence that describes the error.
    pub fn message(&self) -> (r: &'static str)
        ensures
            r@ == self.message_spec(),
    {
        match self {
            ConfigError::NoLoadLimit => "Either timelimit (-t) or number of requests (-n) must be specified",
            ConfigError::NoTarget => "Either URL or URL file (-f) must be specified",
            ConfigError::BothTargets => "Cannot specify both URL and URL file",
            ConfigError::NoWorkers => "Number of workers must be greater than 0",
            ConfigError::SizeRange => "Minimum size cannot be greater than maximum size",
            ConfigError::UnsupportedMethod => "Unsupported HTTP method",
        }
    }
}

/// The name of `Duration::from_secs(secs)`.
pub uninterp spec fn duration_from_secs(secs: u64) -> core::time::Duration;

/// Relies on `Duration::from_secs`: the duration of `secs` whole seconds.
#[verifier::external_body]
fn secs_duration(secs: u64) -> (r: core::time::Duration)
    ensures
        r == duration_from_secs(secs),
{
    core::time::Duration::from_secs(secs)
}

/// The checks shared by every entry point: a load limit and exactly one target.
pub open spec fn load_check(requests: usize, timelimit: u64, has_url: bool, has_file: bool) -> Result<(), ConfigError> {
    if timelimit == 0 && requests == 0 {
        Err(ConfigError::NoLoadLimit)
    } else if !has_url && !has_file {
        Err(ConfigError::NoTarget)
    } else if has_url && has_file {
        Err(ConfigError::BothTargets)
    } else {
        Ok(())
    }
}

/// A header line `name: value` split at its first colon, both parts trimmed.
pub open spec fn header_pair(h: Seq<char>) -> Option<(Seq<char>, Seq<char>)> {
    match split_first_spec(h, ':') {
        Some((a, b)) => Some((trim_of(a), trim_of(b))),
        None => None,
    }
}

/// The header pairs of the lines `hs` that hold a colon, in order.
pub open spec fn parsed_headers(hs: Seq<Seq<char>>) -> Seq<(Seq<char>, Seq<char>)>
    decreases hs.len(),
{
    if hs.len() == 0 {
        Seq::empty()
    } else {
        match header_pair(hs.last()) {
            Some(p) => parsed_headers(hs.drop_last()).push(p),
            None => parsed_headers(hs.drop_last()),
        }
    }
}

pub open spec fn string_views(v: Seq<String>) -> Seq<Seq<char>> {
    v.map_values(|s: String| s@)
}

pub open spec fn pair_views(v: Seq<(String, String)>) -> Seq<(Seq<char>, Seq<char>)> {
    v.map_values(|p: (String, String)| (p.0@, p.1@))
}

impl Config {
    /// What `validate` decides for this configuration.
    pub open spec fn validity(&self) -> Result<(), ConfigError> {
        match load_check(self.requests, self.timelimit, self.url is Some, self.url_file is Some) {
            Err(e) => Err(e),
            Ok(()) => if self.workers == 0 {
                Err(ConfigError::NoWorkers)
            } else if self.min_size > self.max_size {
                Err(ConfigError::SizeRange)
            } else if method_slot(upper_of(self.method@)) is None {
                Err(ConfigError::UnsupportedMethod)
            } else {
                Ok(())
            },
        }
    }

    /// The configured headers that hold a colon, as trimmed name and value.
    pub fn get_headers(&self) -> (r: Vec<(String, String)>)
        ensures
            pair_views(r@) == parsed_headers(string_views(self.headers@)),
    {
        let mut r: Vec<(String, String)> = Vec::new();
        let mut i: usize = 0;
        while i < self.headers.len()
            invariant
                i <= self.headers@.len(),
                pair_views(r@) == parsed_headers(string_views(self.headers@.subrange(0, i as int))),
            decreases self.headers@.len() - i,
        {
            let ghost pre = self.headers@.subrange(0, i as int);
            let ghost next = self.headers@.subrange(0, i as int + 1);
            proof {
                assert(string_views(next).drop_last() =~= string_views(pre));
                assert(string_views(next).last() == self.headers@[i as int]@);
            }
            let c = chars_of(self.headers[i].as_str());
            match split_first(&c, ':') {
                Some((a, b)) => {
                    let ka = string_of(&a);
                    let vb = string_of(&b);
                    let k = trimmed(ka.as_str());
                    let v = trimmed(vb.as_str());
                    let ghost old_r = r@;
                    r.push((k, v));
                    proof {
                        assert(pair_views(r@) =~= pair_views(old_r).push((k@, v@)));
                    }
                },
                None => {},
            }
            i = i + 1;
        }
        assert(self.headers@.subrange(0, self.headers@.len() as int) =~= self.headers@);
        r
    }

    /// Checks that the configuration can run: a time limit or a request count,
    /// exactly one of a URL and a URL file, at least one worker, a body size
    /// range that is not empty, and a supported method in any letter case.
    pub fn validate(&self) -> (r: Result<(), ConfigError>)
        ensures
            r == self.validity(),
    {
        validate_config(self)?;
        if self.workers == 0 {
            return Err(ConfigError::NoWorkers);
        }
        if self.min_size > self.max_size {
            return Err(ConfigError::SizeRange);
        }
        let up = uppercased(self.method.as_str());
        let c = chars_of(up.as_str());
        match slot_of_chars(&c) {
            Some(_) => Ok(()),
            None => Err(ConfigError::UnsupportedMethod),
        }
    }

    /// The Content-Type sent with request bodies.
    pub fn get_content_type(&self) -> (r: &str)
        ensures
            r@ == self.content_type@,
    {
        self.content_type.as_str()
    }

    /// Whether upload requests carry an explicit Content-Type header: only
    /// where one is configured.
    pub fn attaches_content_type(&self) -> (r: bool)
        ensures
            r == (self.content_type@.len() > 0),
    {
        let c = chars_of(self.content_type.as_str());
        c.len() > 0
    }

    /// Whether idle connections are kept open between requests.
    pub fn use_keepalive(&self) -> (r: bool)
        ensures
            r == self.keepalive,
    {
        self.keepalive
    }

    /// The per-request timeout.
    pub fn get_timeout(&self) -> (r: core::time::Duration)
        ensures
            r == duration_from_secs(self.timeout),
    {
        secs_duration(self.timeout)
    }
}

/// The default configuration: one worker, no load limit and no target yet,
/// method GET, a 30 second timeout, `text/plain` bodies of 10 to 100 bytes.
impl Default for Config {
    fn default() -> (r: Config)
        ensures
            r.workers == 1,
            r.requests == 0,
            r.timelimit == 0,
            !r.keepalive,
            r.timeout == 30,
            r.method@ == seq!['G', 'E', 'T'],
            r.headers@.len() == 0,
            r.url is None,
            r.url_file is None,
            r.body_file is None,
            r.content_type@ == seq!['t', 'e', 'x', 't', '/', 'p', 'l', 'a', 'i', 'n'],
            r.min_size == 10,
            r.max_size == 100,
    {
        let m = vec!['G', 'E', 'T'];
        let ct = vec!['t', 'e', 'x', 't', '/', 'p', 'l', 'a', 'i', 'n'];
        let method = string_of(&m);
        let content_type = string_of(&ct);
        proof {
            assert(m@ =~= seq!['G', 'E', 'T']);
            assert(ct@ =~= seq!['t', 'e', 'x', 't', '/', 'p', 'l', 'a', 'i', 'n']);
        }
        Config {
            workers: 1,
            requests: 0,
            timelimit: 0,
            keepalive: false,
            timeout: 30,
            method,
            headers: Vec::new(),
            url: None,
            url_file: None,
            body_file: None,
            content_type,
            min_size: 10,
            max_size: 100,
        }
    }
}

/// The checks made before a run starts: a time limit or a request count, and
/// exactly one of a URL and a URL file.
pub fn validate_config(config: &Config) -> (r: Result<(), ConfigError>)
    ensures
        r == load_check(config.requests, config.timelimit, config.url is Some, config.url_file is Some),
{
    if config.timelimit == 0 && config.requests == 0 {
        return Err(ConfigError::NoLoadLimit);
    }
    if config.url.is_none() && config.url_file.is_none() {
        return Err(ConfigError::NoTarget);
    }
    if config.url.is_some() && config.url_file.is_some() {
        return Err(ConfigError::BothTargets);
    }
    Ok(())
}

} // verus!
