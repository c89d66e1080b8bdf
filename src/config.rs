//! Configuration: log levels, eviction strategies and the settings read once
//! at start-up.
use vstd::prelude::*;

use crate::text::{
    decimal_at_most, join, join_path, lower_of, parse_u64, same_text, to_lower, to_upper,
    upper_of,
};

verus! {

/// Default cache size limit: 1 GiB.
pub const DEFAULT_CACHE_SIZE_LIMIT_BYTES: u64 = 1073741824;

/// Default HTTP timeout per attempt, in seconds.
pub const DEFAULT_HTTP_TIMEOUT_SECS: u64 = 30;

/// Default number of download attempts.
pub const DEFAULT_HTTP_RETRY_ATTEMPTS: u32 = 3;

/// Default base delay between download attempts, in milliseconds.
pub const DEFAULT_HTTP_RETRY_DELAY_MS: u64 = 1000;

/// Logging levels, from the most to the least severe.
#[derive(Debug, Clone, Copy, PartialEq, Eq, Structural)]
pub enum LogLevel {
    Error,
    Warn,
    Info,
    Debug,
}

/// The rank of a level: a message of level `l` is shown when
/// `severity(l) <= severity(configured)`.
pub open spec fn severity(l: LogLevel) -> int {
    match l {
        LogLevel::Error => 0,
        LogLevel::Warn => 1,
        LogLevel::Info => 2,
        LogLevel::Debug => 3,
    }
}

/// The level named by an upper-case word.
pub open spec fn level_named(u: Seq<char>) -> Option<LogLevel> {
    if u == "ERROR"@ {
        Some(LogLevel::Error)
    } else if u == "WARN"@ || u == "WARNING"@ {
        Some(LogLevel::Warn)
    } else if u == "INFO"@ {
        Some(LogLevel::Info)
    } else if u == "DEBUG"@ {
        Some(LogLevel::Debug)
    } else {
        None
    }
}

impl LogLevel {
    /// Parses a level name in any case (`"warn"`, `"WARNING"`, ...).
    pub fn from_str(s: &str) -> (r: Option<LogLevel>)
        ensures
            r == level_named(upper_of(s@)),
    {
        let u = to_upper(s);
        LogLevel::from_upper(u.as_str())
    }

    /// Parses an upper-case level name.
    pub fn from_upper(u: &str) -> (r: Option<LogLevel>)
        ensures
            r == level_named(u@),
    {
        if same_text(u, "ERROR") {
            Some(LogLevel::Error)
        } else if same_text(u, "WARN") || same_text(u, "WARNING") {
            Some(LogLevel::Warn)
        } else if same_text(u, "INFO") {
            Some(LogLevel::Info)
        } else if same_text(u, "DEBUG") {
            Some(LogLevel::Debug)
        } else {
            None
        }
    }

    /// The upper-case name of the level.
    pub fn as_str(&self) -> (r: &'static str)
        ensures
            r@ == (match *self {
                LogLevel::Error => "ERROR"@,
                LogLevel::Warn => "WARN"@,
                LogLevel::Info => "INFO"@,
                LogLevel::Debug => "DEBUG"@,
            }),
    {
        proof {
            reveal_strlit("ERROR");
            reveal_strlit("WARN");
            reveal_strlit("WARNING");
            reveal_strlit("INFO");
            reveal_strlit("DEBUG");
        }
        match self {
            LogLevel::Error => "ERROR",
            LogLevel::Warn => "WARN",
            LogLevel::Info => "INFO",
            LogLevel::Debug => "DEBUG",
        }
    }

    /// The rank of the level, 0 for `Error` up to 3 for `Debug`.
    pub fn rank(&self) -> (r: u8)
        ensures
            r as int == severity(*self),
    {
        match self {
            LogLevel::Error => 0,
            LogLevel::Warn => 1,
            LogLevel::Info => 2,
            LogLevel::Debug => 3,
        }
    }
}

/// Cache eviction strategy.
#[derive(Debug, Clone, Copy, PartialEq, Eq, Structural)]
pub enum CacheEvictionStrategy {
    /// Least recently used: evict the entries accessed longest ago first.
    LRU,
    /// Least frequently used (named for configuration; eviction is by recency).
    LFU,
    /// First in, first out (named for configuration; eviction is by recency).
    FIFO,
}

/// The strategy named by an upper-case word.
pub open spec fn strategy_named(u: Seq<char>) -> Option<CacheEvictionStrategy> {
    if u == "LRU"@ {
        Some(CacheEvictionStrategy::LRU)
    } else if u == "LFU"@ {
        Some(CacheEvictionStrategy::LFU)
    } else if u == "FIFO"@ {
        Some(CacheEvictionStrategy::FIFO)
    } else {
        None
    }
}

impl CacheEvictionStrategy {
    /// Parses a strategy name in any case (`"lru"`, `"Fifo"`, ...).
    pub fn from_str(s: &str) -> (r: Option<CacheEvictionStrategy>)
        ensures
            r == strategy_named(upper_of(s@)),
    {
        let u = to_upper(s);
        CacheEvictionStrategy::from_upper(u.as_str())
    }

    /// Parses an upper-case strategy name.
    pub fn from_upper(u: &str) -> (r: Option<CacheEvictionStrategy>)
        ensures
            r == strategy_named(u@),
    {
        if same_text(u, "LRU") {
            Some(CacheEvictionStrategy::LRU)
        } else if same_text(u, "LFU") {
            Some(CacheEvictionStrategy::LFU)
        } else if same_text(u, "FIFO") {
            Some(CacheEvictionStrategy::FIFO)
        } else {
            None
        }
    }
}

/// The raw values of the environment variables that configure the cache,
/// each `None` where the variable is unset, and the system's temporary
/// directory, under which the default cache directory lies.
#[derive(Debug, Clone, Default)]
pub struct EnvSnapshot {
    /// `INFERA_CACHE_DIR`
    pub cache_dir: Option<String>,
    /// `INFERA_CACHE_SIZE_LIMIT`
    pub cache_size_limit: Option<String>,
    /// `INFERA_VERBOSE`
    pub verbose: Option<String>,
    /// `INFERA_HTTP_TIMEOUT`
    pub http_timeout: Option<String>,
    /// `INFERA_HTTP_RETRY_ATTEMPTS`
    pub http_retry_attempts: Option<String>,
    /// `INFERA_HTTP_RETRY_DELAY`
    pub http_retry_delay: Option<String>,
    /// `INFERA_CACHE_EVICTION`
    pub cache_eviction: Option<String>,
    /// `INFERA_LOG_LEVEL`
    pub log_level: Option<String>,
    /// The system's temporary directory.
    pub temp_dir: String,
}

/// Configuration options, supplied once and then read-only.
#[derive(Debug, Clone)]
pub struct InferaConfig {
    /// Directory in which remote artifacts are cached.
    pub cache_dir: String,
    /// Maximum cache size in bytes (a soft target).
    pub cache_size_limit: u64,
    /// Whether verbose logging is on.
    pub verbose_logging: bool,
    /// HTTP request timeout per attempt, in seconds.
    pub http_timeout_secs: u64,
    /// Number of download attempts.
    pub http_retry_attempts: u32,
    /// Base delay between download attempts, in milliseconds.
    pub http_retry_delay_ms: u64,
    /// Cache eviction strategy.
    pub cache_eviction_strategy: CacheEvictionStrategy,
    /// Logging level.
    pub log_level: LogLevel,
}

/// The name of the default cache directory inside the temporary directory.
pub open spec fn default_cache_dir_name() -> Seq<char> {
    seq!['i', 'n', 'f', 'e', 'r', 'a', '_', 'c', 'a', 'c', 'h', 'e']
}

/// A number setting: its value where the text spells one that fits, else the default.
pub open spec fn number_or(v: Option<String>, max: nat, default: nat) -> nat {
    match v {
        Some(s) => match decimal_at_most(s@, max) {
            Some(n) => n,
            None => default,
        },
        None => default,
    }
}

/// Verbose logging is on where the variable is `1` or, in any case, `true`.
pub open spec fn verbose_from(v: Option<String>) -> bool {
    match v {
        Some(s) => s@ == "1"@ || lower_of(s@) == "true"@,
        None => false,
    }
}

pub open spec fn strategy_from(v: Option<String>) -> CacheEvictionStrategy {
    match v {
        Some(s) => match strategy_named(upper_of(s@)) {
            Some(st) => st,
            None => CacheEvictionStrategy::LRU,
        },
        None => CacheEvictionStrategy::LRU,
    }
}

pub open spec fn level_from(v: Option<String>) -> LogLevel {
    match v {
        Some(s) => match level_named(upper_of(s@)) {
            Some(l) => l,
            None => LogLevel::Warn,
        },
        None => LogLevel::Warn,
    }
}

pub open spec fn cache_dir_from(v: Option<String>, temp_dir: Seq<char>) -> Seq<char> {
    match v {
        Some(d) => d@,
        None => join_path(temp_dir, default_cache_dir_name()),
    }
}

/// Reads an unsigned setting of at most `max`, or gives `default`.
fn number_setting(v: &Option<String>, max: u64, default: u64) -> (r: u64)
    requires
        default <= max,
    ensures
        r as nat == number_or(*v, max as nat, default as nat),
{
    match v {
        Some(s) => match parse_u64(s.as_str()) {
            Some(n) => {
                if n <= max {
                    n
                } else {
                    default
                }
            },
            None => default,
        },
        None => default,
    }
}

impl InferaConfig {
    /// Builds the configuration from the environment's values: each setting
    /// that is unset or does not parse takes its default.
    pub fn from_env(env: &EnvSnapshot) -> (r: InferaConfig)
        ensures
            r.cache_dir@ == cache_dir_from(env.cache_dir, env.temp_dir@),
            r.cache_size_limit as nat == number_or(
                env.cache_size_limit,
                u64::MAX as nat,
                DEFAULT_CACHE_SIZE_LIMIT_BYTES as nat,
            ),
            r.verbose_logging == verbose_from(env.verbose),
            r.http_timeout_secs as nat == number_or(
                env.http_timeout,
                u64::MAX as nat,
                DEFAULT_HTTP_TIMEOUT_SECS as nat,
            ),
            r.http_retry_attempts as nat == number_or(
                env.http_retry_attempts,
                u32::MAX as nat,
                DEFAULT_HTTP_RETRY_ATTEMPTS as nat,
            ),
            r.http_retry_delay_ms as nat == number_or(
                env.http_retry_delay,
                u64::MAX as nat,
                DEFAULT_HTTP_RETRY_DELAY_MS as nat,
            ),
            r.cache_eviction_strategy == strategy_from(env.cache_eviction),
            r.log_level == level_from(env.log_level),
    {
        InferaConfig {
            cache_dir: Self::get_cache_dir_from_env(env),
            cache_size_limit: number_setting(
                &env.cache_size_limit,
                u64::MAX,
                DEFAULT_CACHE_SIZE_LIMIT_BYTES,
            ),
            verbose_logging: Self::get_verbose_logging_from_env(&env.verbose),
            http_timeout_secs: number_setting(
                &env.http_timeout,
                u64::MAX,
                DEFAULT_HTTP_TIMEOUT_SECS,
            ),
            http_retry_attempts: number_setting(
                &env.http_retry_attempts,
                u32::MAX as u64,
                DEFAULT_HTTP_RETRY_ATTEMPTS as u64,
            ) as u32,
            http_retry_delay_ms: number_setting(
                &env.http_retry_delay,
                u64::MAX,
                DEFAULT_HTTP_RETRY_DELAY_MS,
            ),
            cache_eviction_strategy: Self::get_cache_eviction_strategy_from_env(
                &env.cache_eviction,
            ),
            log_level: Self::get_log_level_from_env(&env.log_level),
        }
    }

    /// The configuration with every setting at its default, the cache
    /// directory being `infera_cache` inside `temp_dir`.
    pub fn defaults(temp_dir: &str) -> (r: InferaConfig)
        ensures
            r.cache_dir@ == join_path(temp_dir@, default_cache_dir_name()),
            r.cache_size_limit == DEFAULT_CACHE_SIZE_LIMIT_BYTES,
            !r.verbose_logging,
            r.http_timeout_secs == DEFAULT_HTTP_TIMEOUT_SECS,
            r.http_retry_attempts == DEFAULT_HTTP_RETRY_ATTEMPTS,
            r.http_retry_delay_ms == DEFAULT_HTTP_RETRY_DELAY_MS,
            r.cache_eviction_strategy == CacheEvictionStrategy::LRU,
            r.log_level == LogLevel::Warn,
    {
        proof {
            reveal_strlit("infera_cache");
        }
        InferaConfig {
            cache_dir: join(temp_dir, "infera_cache"),
            cache_size_limit: DEFAULT_CACHE_SIZE_LIMIT_BYTES,
            verbose_logging: false,
            http_timeout_secs: DEFAULT_HTTP_TIMEOUT_SECS,
            http_retry_attempts: DEFAULT_HTTP_RETRY_ATTEMPTS,
            http_retry_delay_ms: DEFAULT_HTTP_RETRY_DELAY_MS,
            cache_eviction_strategy: CacheEvictionStrategy::LRU,
            log_level: LogLevel::Warn,
        }
    }

    fn get_cache_dir_from_env(env: &EnvSnapshot) -> (r: String)
        ensures
            r@ == cache_dir_from(env.cache_dir, env.temp_dir@),
    {
        match &env.cache_dir {
            Some(d) => d.clone(),
            None => {
                proof {
                    reveal_strlit("infera_cache");
                }
                join(env.temp_dir.as_str(), "infera_cache")
            },
        }
    }

    fn get_verbose_logging_from_env(v: &Option<String>) -> (r: bool)
        ensures
            r == verbose_from(*v),
    {
        match v {
            Some(s) => same_text(s.as_str(), "1") || {
                let l = to_lower(s.as_str());
                same_text(l.as_str(), "true")
            },
            None => false,
        }
    }

    fn get_cache_eviction_strategy_from_env(v: &Option<String>) -> (r: CacheEvictionStrategy)
        ensures
            r == strategy_from(*v),
    {
        match v {
            Some(s) => match CacheEvictionStrategy::from_str(s.as_str()) {
                Some(st) => st,
                None => CacheEvictionStrategy::LRU,
            },
            None => CacheEvictionStrategy::LRU,
        }
    }

    fn get_log_level_from_env(v: &Option<String>) -> (r: LogLevel)
        ensures
            r == level_from(*v),
    {
        match v {
            Some(s) => match LogLevel::from_str(s.as_str()) {
                Some(l) => l,
                None => LogLevel::Warn,
            },
            None => LogLevel::Warn,
        }
    }

    /// Whether a message of level `level` is shown under this configuration.
    pub fn should_log(&self, level: LogLevel) -> (r: bool)
        ensures
            r == (severity(level) <= severity(self.log_level)),
    {
        level.rank() <= self.log_level.rank()
    }
}

} // verus!
