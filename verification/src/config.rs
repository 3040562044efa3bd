//! This module contains the types used for configuration.

use vstd::prelude::*;
use crate::error_code;
use crate::generator::P_TAG_SIZE;

verus! {

/// The largest number of permits the admission pool will hold when
/// `max_concurrent` is configured as `0` (no limit). It matches the cap the
/// async runtime's semaphore documents.
pub const MAX_PERMITS: usize = usize::MAX >> 3;

/// Configuration for the honeypot.
#[derive(Debug, Clone)]
pub struct Config {
    /// Configuration related to HTTP server.
    pub http: HttpConfig,
    /// Configuration related to generator creating HTML.
    pub generator: GeneratorConfig,
    /// Configuration related to logs.
    pub logging: LoggingConfig,
}

/// Configuration of the HTTP layer, consumed by the surrounding binary.
#[derive(Debug, Clone)]
pub struct HttpConfig {
    /// Port to listen on.
    pub port: String,
    /// Routes to be handled. Is overridden by `http.catch_all`.
    pub routes: Vec<String>,
    /// If all routes are to be served.
    pub catch_all: bool,
    /// How many connections that can be made over `http.rate_limit_period`
    /// seconds. Will not set any limit if set to 0.
    pub rate_limit: u64,
    /// Amount of seconds that `http.rate_limit` checks on. Does nothing if
    /// rate limit is set to 0.
    pub rate_limit_period: u64,
    /// Enables `http.health_port` to be used for health checks.
    pub health_port_enabled: bool,
    /// Port to be used for health checks. Has no effect if
    /// `http.health_port_enabled` is `false`.
    pub health_port: String,
    /// The `Content-Type` header set in responses.
    pub content_type: String,
}

/// Which content strategy a stream uses, with the seed file where one is
/// needed.
#[derive(Debug, Clone)]
pub enum GeneratorType {
    /// Pseudo-random alphanumeric text.
    Random,
    /// Markov chain that also contains a path to the text to be used for
    /// generation.
    MarkovChain(String),
    /// A fixed payload replayed forever, read from the path.
    Static(String),
}

/// Configuration of the generation subsystem.
#[derive(Debug, Clone)]
pub struct GeneratorConfig {
    /// The size of each generated chunk in bytes.
    pub chunk_size: usize,
    /// The type of generator to be used.
    pub generator_type: GeneratorType,
    /// The max amount of simultaneous generators; read through
    /// [`GeneratorConfig::max_concurrent`].
    pub max_concurrent: usize,
    /// The amount of time in seconds a generator can be active before it
    /// stops sending. `0` means no limit.
    pub time_limit: u64,
    /// The amount of data in bytes that a generator can send before it stops
    /// sending. `0` means no limit.
    pub size_limit: usize,
    /// How many chunks should be buffered for each connection. Must be >= 1.
    pub chunk_buffer: usize,
    /// Prefix that will be used for the first message to an incoming
    /// connection. Can be set to "" to disable.
    pub prefix: String,
}

/// Configuration of logging, consumed by the surrounding binary.
#[derive(Debug, Clone)]
pub struct LoggingConfig {
    /// Output file for logs.
    pub output_path: String,
    /// If pretty logs should be written to standard output.
    pub print_pretty_logs: bool,
    /// If no logs at all should be printed to stdout.
    pub no_stdout: bool,
}

impl GeneratorConfig {
    /// Builds a generator configuration out of every field value.
    pub fn new(
        chunk_size: usize,
        generator_type: GeneratorType,
        max_concurrent: usize,
        time_limit: u64,
        size_limit: usize,
        chunk_buffer: usize,
        prefix: String,
    ) -> (r: Self)
        ensures
            r.chunk_size == chunk_size,
            r.generator_type == generator_type,
            r.max_concurrent == max_concurrent,
            r.time_limit == time_limit,
            r.size_limit == size_limit,
            r.chunk_buffer == chunk_buffer,
            r.prefix == prefix,
    {
        Self {
            chunk_size,
            generator_type,
            max_concurrent,
            time_limit,
            size_limit,
            chunk_buffer,
            prefix,
        }
    }

    /// The number of permits the admission pool is built with: the configured
    /// maximum, where `0` stands for "no limit".
    pub open spec fn spec_max_concurrent(&self) -> usize {
        if self.max_concurrent == 0 {
            MAX_PERMITS
        } else {
            self.max_concurrent
        }
    }

    /// The max amount of simultaneous generators that can produce output.
    /// Useful for preventing abuse. `0` means no limit.
    #[verifier::when_used_as_spec(spec_max_concurrent)]
    pub fn max_concurrent(&self) -> (r: usize)
        ensures
            r == self.spec_max_concurrent(),
    {
        if self.max_concurrent == 0 {
            MAX_PERMITS
        } else {
            self.max_concurrent
        }
    }
}

impl GeneratorType {
    /// A short description of the chosen strategy for the operator's log.
    pub fn describe(&self) -> (r: String)
        ensures
            match self {
                GeneratorType::Random => r@ == "random generator"@,
                GeneratorType::MarkovChain(pb) => r@ == "Markov chain generator with '"@ + pb@
                    + "' as data source"@,
                GeneratorType::Static(pb) => r@ == "static generator with '"@ + pb@
                    + "' as data source"@,
            },
    {
        match self {
            GeneratorType::Random => "random generator".to_owned(),
            GeneratorType::MarkovChain(pb) => {
                let mut s = "Markov chain generator with '".to_owned();
                s.append(pb.as_str());
                s.append("' as data source");
                s
            },
            GeneratorType::Static(pb) => {
                let mut s = "static generator with '".to_owned();
                s.append(pb.as_str());
                s.append("' as data source");
                s
            },
        }
    }
}

/// What configuration checking decides for a given configuration: either the
/// configuration may serve, or startup stops with this exit code.
pub open spec fn validate_spec(c: Config, content_type_ok: bool) -> Result<(), i32> {
    if c.generator.chunk_size <= P_TAG_SIZE {
        Err(error_code::GENERATOR_CHUNK_SIZE_TOO_SMALL)
    } else if c.generator.chunk_buffer < 1 {
        Err(error_code::GENERATOR_CHUNK_BUFFER_TOO_SMALL)
    } else if !content_type_ok {
        Err(error_code::BAD_CONTENT_TYPE)
    } else if !c.http.catch_all && c.http.routes@.len() == 0 {
        Err(error_code::BAD_CONFIG)
    } else if c.http.rate_limit != 0 && c.http.rate_limit_period == 0 {
        Err(error_code::BAD_CONFIG)
    } else {
        Ok(())
    }
}

impl Config {
    /// Decides whether this configuration may serve. `content_type_ok` is
    /// whether the HTTP layer accepted `http.content_type` as a header value.
    /// Checks run in the order startup reports them: chunk size (it must
    /// exceed the tag-wrap overhead, so a chunk always has room for text),
    /// chunk buffer, content type, routes, rate limiting.
    pub fn validate(&self, content_type_ok: bool) -> (r: Result<(), i32>)
        ensures
            r == validate_spec(*self, content_type_ok),
    {
        if self.generator.chunk_size <= P_TAG_SIZE {
            return Err(error_code::GENERATOR_CHUNK_SIZE_TOO_SMALL);
        }
        if self.generator.chunk_buffer < 1 {
            return Err(error_code::GENERATOR_CHUNK_BUFFER_TOO_SMALL);
        }
        if !content_type_ok {
            return Err(error_code::BAD_CONTENT_TYPE);
        }
        if !self.http.catch_all && self.http.routes.len() == 0 {
            return Err(error_code::BAD_CONFIG);
        }
        if self.http.rate_limit != 0 && self.http.rate_limit_period == 0 {
            return Err(error_code::BAD_CONFIG);
        }
        Ok(())
    }

    /// Whether the health port clashes with the serving port, which stops
    /// startup when health checks are enabled.
    pub fn health_port_conflict(&self) -> (r: bool)
        ensures
            r == (self.http.health_port_enabled && self.http.port@ == self.http.health_port@),
    {
        self.http.health_port_enabled && self.http.port == self.http.health_port
    }
}

/// Default port to listen on.
pub fn default_http_port() -> (r: String)
    ensures
        r@ == "8080"@,
{
    "8080".to_owned()
}

/// Default routes: the root alone.
pub fn default_http_routes() -> (r: Vec<String>)
    ensures
        r@.len() == 1,
        r@[0]@ == "/"@,
{
    let mut v: Vec<String> = Vec::new();
    v.push("/".to_owned());
    v
}

/// By default every route is served.
pub fn default_http_catch_all() -> (r: bool)
    ensures
        r == true,
{
    true
}

/// By default no rate limit is set.
pub fn default_http_rate_limit() -> (r: u64)
    ensures
        r == 0,
{
    0
}

/// Default rate limit period: five minutes.
pub fn default_http_rate_limit_period() -> (r: u64)
    ensures
        r == 300,
{
    5 * 60
}

/// The health port is disabled by default.
pub fn default_http_health_port_enabled() -> (r: bool)
    ensures
        r == false,
{
    false
}

/// Default port for health checks.
pub fn default_http_health_port() -> (r: String)
    ensures
        r@ == "8081"@,
{
    "8081".to_owned()
}

/// Default `Content-Type` header sent with responses.
pub fn default_http_content_type() -> (r: String)
    ensures
        r@ == "text/html; charset=utf-8"@,
{
    "text/html; charset=utf-8".to_owned()
}

impl Default for HttpConfig {
    /// The HTTP configuration with every field at its default.
    fn default() -> (r: Self)
        ensures
            r.port@ == "8080"@,
            r.routes@.len() == 1 && r.routes@[0]@ == "/"@,
            r.catch_all == true,
            r.rate_limit == 0,
            r.rate_limit_period == 0,
            r.health_port_enabled == false,
            r.health_port@ == "8081"@,
            r.content_type@ == "text/html; charset=utf-8"@,
    {
        Self {
            port: default_http_port(),
            routes: default_http_routes(),
            catch_all: default_http_catch_all(),
            rate_limit: default_http_rate_limit(),
            // Deliberately the rate limit's default: with the rate limit off,
            // the period does nothing.
            rate_limit_period: default_http_rate_limit(),
            health_port_enabled: default_http_health_port_enabled(),
            health_port: default_http_health_port(),
            content_type: default_http_content_type(),
        }
    }
}

/// Default size of each generated chunk: sixteen KiB.
pub fn default_generator_chunk_size() -> (r: usize)
    ensures
        r == 16384,
{
    1024 * 16
}

/// The random strategy is the default.
pub fn default_generator_generator_type() -> (r: GeneratorType)
    ensures
        r == GeneratorType::Random,
{
    GeneratorType::Random
}

/// Default cap on simultaneous generators.
pub fn default_generator_max_concurrent() -> (r: usize)
    ensures
        r == 100,
{
    100
}

/// By default no time limit is set.
pub fn default_generator_time_limit() -> (r: u64)
    ensures
        r == 0,
{
    0
}

/// By default no size limit is set.
pub fn default_generator_size_limit() -> (r: usize)
    ensures
        r == 0,
{
    0
}

/// Default number of chunks buffered between a strategy and its session.
pub fn default_generator_chunk_buffer() -> (r: usize)
    ensures
        r == 20,
{
    20
}

/// Default prefix put in front of the first message.
pub fn default_generator_prefix() -> (r: String)
    ensures
        r@ == "<!DOCTYPE html><html><body>"@,
{
    "<!DOCTYPE html><html><body>".to_owned()
}

impl Default for GeneratorConfig {
    /// The generator configuration with every field at its default.
    fn default() -> (r: Self)
        ensures
            r.chunk_size == 16384,
            r.generator_type == GeneratorType::Random,
            r.max_concurrent == 100,
            r.time_limit == 0,
            r.size_limit == 0,
            r.chunk_buffer == 20,
            r.prefix@ == "<!DOCTYPE html><html><body>"@,
    {
        Self::new(
            default_generator_chunk_size(),
            default_generator_generator_type(),
            default_generator_max_concurrent(),
            default_generator_time_limit(),
            default_generator_size_limit(),
            default_generator_chunk_buffer(),
            default_generator_prefix(),
        )
    }
}

/// Default output file for logs.
pub fn default_logging_output_path() -> (r: String)
    ensures
        r@ == "pandoras.log"@,
{
    "pandoras.log".to_owned()
}

/// Pretty logs go to standard output by default.
pub fn default_logging_print_pretty_logs() -> (r: bool)
    ensures
        r == true,
{
    true
}

/// Standard output logging is not suppressed by default.
pub fn default_logging_no_stdout() -> (r: bool)
    ensures
        r == false,
{
    false
}

impl Default for LoggingConfig {
    /// The logging configuration with every field at its default.
    fn default() -> (r: Self)
        ensures
            r.output_path@ == "pandoras.log"@,
            r.print_pretty_logs == true,
            r.no_stdout == false,
    {
        Self {
            output_path: default_logging_output_path(),
            print_pretty_logs: default_logging_print_pretty_logs(),
            no_stdout: default_logging_no_stdout(),
        }
    }
}

impl Default for Config {
    /// The configuration with every section at its default. Such a
    /// configuration always passes validation (given an accepted content
    /// type).
    fn default() -> (r: Self)
        ensures
            r.http.port@ == "8080"@,
            r.http.routes@.len() == 1 && r.http.routes@[0]@ == "/"@,
            r.http.catch_all == true,
            r.http.rate_limit == 0,
            r.http.rate_limit_period == 0,
            r.http.health_port_enabled == false,
            r.http.health_port@ == "8081"@,
            r.http.content_type@ == "text/html; charset=utf-8"@,
            r.generator.chunk_size == 16384,
            r.generator.generator_type == GeneratorType::Random,
            r.generator.max_concurrent == 100,
            r.generator.time_limit == 0,
            r.generator.size_limit == 0,
            r.generator.chunk_buffer == 20,
            r.generator.prefix@ == "<!DOCTYPE html><html><body>"@,
            r.logging.output_path@ == "pandoras.log"@,
            r.logging.print_pretty_logs == true,
            r.logging.no_stdout == false,
            validate_spec(r, true) == Ok::<(), i32>(()),
    {
        Self {
            http: Default::default(),
            generator: Default::default(),
            logging: Default::default(),
        }
    }
}

} // verus!
