//! Configuration of the gateway.

use crate::error::PolkuError;
use crate::number;
use crate::number::parse_number;
use crate::text;
use crate::text::{join2, join4, same_text, to_lowercase};
use vstd::prelude::*;

verus! {

/// How log lines are written.
#[derive(Debug, Clone, Copy, PartialEq, Eq, Structural)]
pub enum LogFormat {
    /// As JSON.
    Json,
    /// For people to read.
    Pretty,
}

/// The configuration.
#[derive(Debug)]
pub struct Config {
    /// Address of the gRPC server.
    pub grpc_addr: String,
    /// Address of the metrics server.
    pub metrics_addr: String,
    /// How many events the buffer holds.
    pub buffer_capacity: usize,
    /// How many events outputs get at once.
    pub batch_size: usize,
    /// Time between two flushes, in milliseconds.
    pub flush_interval_ms: u64,
    /// Log level.
    pub log_level: String,
    /// How log lines are written.
    pub log_format: LogFormat,
}

/// The mathematical value of a [`Config`].
#[verifier::ext_equal]
pub struct ConfigView {
    pub grpc_addr: Seq<char>,
    pub metrics_addr: Seq<char>,
    pub buffer_capacity: nat,
    pub batch_size: nat,
    pub flush_interval_ms: nat,
    pub log_level: Seq<char>,
    pub log_format: LogFormat,
}

impl View for Config {
    type V = ConfigView;

    open spec fn view(&self) -> ConfigView {
        ConfigView {
            grpc_addr: self.grpc_addr@,
            metrics_addr: self.metrics_addr@,
            buffer_capacity: self.buffer_capacity as nat,
            batch_size: self.batch_size as nat,
            flush_interval_ms: self.flush_interval_ms as nat,
            log_level: self.log_level@,
            log_format: self.log_format,
        }
    }
}

impl ConfigView {
    /// What holds where nothing is set.
    pub open spec fn defaults() -> ConfigView {
        ConfigView {
            grpc_addr: "0.0.0.0:50051"@,
            metrics_addr: "127.0.0.1:9090"@,
            buffer_capacity: 100_000,
            batch_size: 1000,
            flush_interval_ms: 100,
            log_level: "info"@,
            log_format: LogFormat::Pretty,
        }
    }
}

impl Default for Config {
    fn default() -> (r: Self)
        ensures
            r@ == ConfigView::defaults(),
    {
        Config {
            grpc_addr: "0.0.0.0:50051".to_string(),
            metrics_addr: "127.0.0.1:9090".to_string(),
            buffer_capacity: 100_000,
            batch_size: 1000,
            flush_interval_ms: 100,
            log_level: "info".to_string(),
            log_format: LogFormat::Pretty,
        }
    }
}

impl Clone for Config {
    fn clone(&self) -> (r: Self)
        ensures
            r@ == self@,
    {
        Config {
            grpc_addr: self.grpc_addr.clone(),
            metrics_addr: self.metrics_addr.clone(),
            buffer_capacity: self.buffer_capacity,
            batch_size: self.batch_size,
            flush_interval_ms: self.flush_interval_ms,
            log_level: self.log_level.clone(),
            log_format: self.log_format,
        }
    }
}

/// The values of the environment variables that are set. An address comes with the
/// verdict on it: its text, or why it is not an address.
#[derive(Debug)]
pub struct Settings {
    /// `POLKU_GRPC_ADDR`
    pub grpc_addr: Option<Result<String, String>>,
    /// `POLKU_METRICS_ADDR`
    pub metrics_addr: Option<Result<String, String>>,
    /// `POLKU_BUFFER_CAPACITY`
    pub buffer_capacity: Option<String>,
    /// `POLKU_BATCH_SIZE`
    pub batch_size: Option<String>,
    /// `POLKU_FLUSH_INTERVAL_MS`
    pub flush_interval_ms: Option<String>,
    /// `POLKU_LOG_LEVEL`
    pub log_level: Option<String>,
    /// `POLKU_LOG_FORMAT`
    pub log_format: Option<String>,
}

impl Default for Settings {
    fn default() -> (r: Self)
        ensures
            r.grpc_addr is None,
            r.metrics_addr is None,
            r.buffer_capacity is None,
            r.batch_size is None,
            r.flush_interval_ms is None,
            r.log_level is None,
            r.log_format is None,
    {
        Settings {
            grpc_addr: None,
            metrics_addr: None,
            buffer_capacity: None,
            batch_size: None,
            flush_interval_ms: None,
            log_level: None,
            log_format: None,
        }
    }
}

/// The message about a value that is not accepted.
pub open spec fn invalid(name: Seq<char>, reason: Seq<char>) -> Seq<char> {
    "invalid "@ + name + ": "@ + reason
}

/// An address, or the one that holds where none is set.
pub open spec fn address_setting(
    name: Seq<char>,
    value: Option<Result<String, String>>,
    default: Seq<char>,
) -> Result<Seq<char>, Seq<char>> {
    match value {
        None => Ok(default),
        Some(Ok(addr)) => Ok(addr@),
        Some(Err(reason)) => Err(invalid(name, reason@)),
    }
}

/// A number of at most `max`, or the one that holds where none is set.
pub open spec fn number_setting(
    name: Seq<char>,
    value: Option<String>,
    default: nat,
    max: nat,
) -> Result<nat, Seq<char>> {
    match value {
        None => Ok(default),
        Some(s) => match number::number_value(s@, max) {
            Ok(n) => Ok(n),
            Err(e) => Err(invalid(name, e.text())),
        },
    }
}

/// The log format that a text in lower case names.
pub open spec fn format_named(lowered: Seq<char>) -> Result<LogFormat, Seq<char>> {
    if lowered == "json"@ {
        Ok(LogFormat::Json)
    } else if lowered == "pretty"@ {
        Ok(LogFormat::Pretty)
    } else {
        Err(invalid("POLKU_LOG_FORMAT"@, lowered + " (expected 'json' or 'pretty')"@))
    }
}

/// The log format, whatever the case in which it is written.
pub open spec fn format_setting(value: Option<String>) -> Result<LogFormat, Seq<char>> {
    match value {
        None => Ok(LogFormat::Pretty),
        Some(s) => format_named(text::lowercase(s@)),
    }
}

/// The configuration that settings make, or the message about the first of them that
/// is not accepted.
pub open spec fn configured(s: Settings) -> Result<ConfigView, Seq<char>> {
    let d = ConfigView::defaults();
    let grpc_addr = address_setting("POLKU_GRPC_ADDR"@, s.grpc_addr, d.grpc_addr);
    let metrics_addr = address_setting("POLKU_METRICS_ADDR"@, s.metrics_addr, d.metrics_addr);
    let buffer_capacity = number_setting(
        "POLKU_BUFFER_CAPACITY"@,
        s.buffer_capacity,
        d.buffer_capacity,
        usize::MAX as nat,
    );
    let batch_size = number_setting(
        "POLKU_BATCH_SIZE"@,
        s.batch_size,
        d.batch_size,
        usize::MAX as nat,
    );
    let flush_interval_ms = number_setting(
        "POLKU_FLUSH_INTERVAL_MS"@,
        s.flush_interval_ms,
        d.flush_interval_ms,
        u64::MAX as nat,
    );
    let log_format = format_setting(s.log_format);
    if let Err(e) = grpc_addr {
        Err(e)
    } else if let Err(e) = metrics_addr {
        Err(e)
    } else if let Err(e) = buffer_capacity {
        Err(e)
    } else if let Err(e) = batch_size {
        Err(e)
    } else if let Err(e) = flush_interval_ms {
        Err(e)
    } else if let Err(e) = log_format {
        Err(e)
    } else {
        Ok(
            ConfigView {
                grpc_addr: grpc_addr->Ok_0,
                metrics_addr: metrics_addr->Ok_0,
                buffer_capacity: buffer_capacity->Ok_0,
                batch_size: batch_size->Ok_0,
                flush_interval_ms: flush_interval_ms->Ok_0,
                log_level: match s.log_level {
                    Some(level) => level@,
                    None => d.log_level,
                },
                log_format: log_format->Ok_0,
            },
        )
    }
}

/// An error is a configuration error with a message.
pub open spec fn is_config_error(e: PolkuError, message: Seq<char>) -> bool {
    e matches PolkuError::Config(m) && m@ == message
}

/// The error about a value that is not accepted.
fn rejected(name: &str, reason: &str) -> (r: PolkuError)
    ensures
        is_config_error(r, invalid(name@, reason@)),
{
    PolkuError::Config(join4("invalid ", name, ": ", reason))
}

/// Reads an address.
fn read_address(name: &str, value: Option<Result<String, String>>, default: String) -> (r: Result<
    String,
    PolkuError,
>)
    ensures
        match r {
            Ok(addr) => address_setting(name@, value, default@) == Ok::<Seq<char>, Seq<char>>(
                addr@,
            ),
            Err(e) => address_setting(name@, value, default@) matches Err(m) && is_config_error(
                e,
                m,
            ),
        },
{
    match value {
        None => Ok(default),
        Some(Ok(addr)) => Ok(addr),
        Some(Err(reason)) => Err(rejected(name, reason.as_str())),
    }
}

/// Reads a number.
fn read_number(name: &str, value: &Option<String>, default: u64, max: u64) -> (r: Result<
    u64,
    PolkuError,
>)
    requires
        default <= max,
    ensures
        match r {
            Ok(n) => n <= max && number_setting(name@, *value, default as nat, max as nat) == Ok::<
                nat,
                Seq<char>,
            >(n as nat),
            Err(e) => number_setting(name@, *value, default as nat, max as nat) matches Err(m)
                && is_config_error(e, m),
        },
{
    match value {
        None => Ok(default),
        Some(s) => match parse_number(s.as_str(), max) {
            Ok(n) => Ok(n),
            Err(e) => Err(rejected(name, e.to_text().as_str())),
        },
    }
}

/// The log format that a text in lower case names.
pub fn named_format(lowered: &str) -> (r: Result<LogFormat, PolkuError>)
    ensures
        match r {
            Ok(format) => format_named(lowered@) == Ok::<LogFormat, Seq<char>>(format),
            Err(e) => format_named(lowered@) matches Err(m) && is_config_error(e, m),
        },
{
    if same_text(lowered, "json") {
        Ok(LogFormat::Json)
    } else if same_text(lowered, "pretty") {
        Ok(LogFormat::Pretty)
    } else {
        let reason = join2(lowered, " (expected 'json' or 'pretty')");
        Err(rejected("POLKU_LOG_FORMAT", reason.as_str()))
    }
}

impl Config {
    /// Makes the configuration from the values of the environment variables that are
    /// set. The first value that is not accepted is reported.
    pub fn from_settings(settings: Settings) -> (r: Result<Self, PolkuError>)
        ensures
            match r {
                Ok(config) => configured(settings) == Ok::<ConfigView, Seq<char>>(config@),
                Err(e) => configured(settings) matches Err(m) && is_config_error(e, m),
            },
    {
        let d = Config::default();
        let max: u64 = usize::MAX as u64;
        let grpc_addr = match read_address("POLKU_GRPC_ADDR", settings.grpc_addr, d.grpc_addr) {
            Ok(addr) => addr,
            Err(e) => return Err(e),
        };
        let metrics_addr = match read_address(
            "POLKU_METRICS_ADDR",
            settings.metrics_addr,
            d.metrics_addr,
        ) {
            Ok(addr) => addr,
            Err(e) => return Err(e),
        };
        let buffer_capacity: u64 = match read_number(
            "POLKU_BUFFER_CAPACITY",
            &settings.buffer_capacity,
            d.buffer_capacity as u64,
            max,
        ) {
            Ok(n) => n,
            Err(e) => return Err(e),
        };
        let batch_size: u64 = match read_number(
            "POLKU_BATCH_SIZE",
            &settings.batch_size,
            d.batch_size as u64,
            max,
        ) {
            Ok(n) => n,
            Err(e) => return Err(e),
        };
        let flush_interval_ms: u64 = match read_number(
            "POLKU_FLUSH_INTERVAL_MS",
            &settings.flush_interval_ms,
            d.flush_interval_ms,
            u64::MAX,
        ) {
            Ok(n) => n,
            Err(e) => return Err(e),
        };
        let log_level = match settings.log_level {
            Some(level) => level,
            None => d.log_level,
        };
        let log_format = match &settings.log_format {
            Some(s) => match named_format(to_lowercase(s.as_str()).as_str()) {
                Ok(format) => format,
                Err(e) => return Err(e),
            },
            None => d.log_format,
        };
        Ok(
            Config {
                grpc_addr,
                metrics_addr,
                buffer_capacity: buffer_capacity as usize,
                batch_size: batch_size as usize,
                flush_interval_ms,
                log_level,
                log_format,
            },
        )
    }
}

/// Where no variable is set, the defaults hold.
pub proof fn unset_means_default(s: Settings)
    requires
        s.grpc_addr is None,
        s.metrics_addr is None,
        s.buffer_capacity is None,
        s.batch_size is None,
        s.flush_interval_ms is None,
        s.log_level is None,
        s.log_format is None,
    ensures
        configured(s) == Ok::<ConfigView, Seq<char>>(ConfigView::defaults()),
{
}

/// A capacity that is set to a number in decimal is that number.
pub proof fn capacity_is_read_back(s: Settings, n: nat)
    requires
        s.buffer_capacity matches Some(value) && value@ == number::decimal(n),
        n <= usize::MAX,
        configured(s) is Ok,
    ensures
        (configured(s)->Ok_0).buffer_capacity == n,
{
    number::decimal_reads_back(n, usize::MAX as nat);
}

} // verus!
