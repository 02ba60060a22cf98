//! Configuration of a capture session: file settings, overridden by arguments.
use vstd::prelude::*;
use vstd::string::StringExecFns;

use crate::stream::Format;
use crate::text::{is_blank, is_blank_text, same_text};

verus! {

/// Way out of the stream.
#[derive(Clone, Copy, Debug, PartialEq, Eq, Structural)]
pub enum Transport {
    Stdout,
    Tcp,
    Pipe,
}

/// The way out of the stream that `text` names.
pub open spec fn transport_named(text: Seq<char>) -> Option<Transport> {
    if text == "stdout"@ {
        Some(Transport::Stdout)
    } else if text == "tcp"@ {
        Some(Transport::Tcp)
    } else if text == "pipe"@ {
        Some(Transport::Pipe)
    } else {
        None
    }
}

impl Transport {
    /// The name, as configured.
    pub fn as_str(self) -> (r: &'static str)
        ensures
            r@ == match self {
                Transport::Stdout => "stdout"@,
                Transport::Tcp => "tcp"@,
                Transport::Pipe => "pipe"@,
            },
            transport_named(r@) == Some(self),
    {
        proof {
            reveal_strlit("stdout");
            reveal_strlit("tcp");
            reveal_strlit("pipe");
            assert("stdout"@.len() == 6 && "stdout"@[0] == 's');
            assert("tcp"@.len() == 3 && "tcp"@[0] == 't');
            assert("pipe"@.len() == 4 && "pipe"@[0] == 'p');
        }
        match self {
            Transport::Stdout => "stdout",
            Transport::Tcp => "tcp",
            Transport::Pipe => "pipe",
        }
    }

    /// The value that `value` names.
    pub fn parse(value: &str) -> (r: Result<Transport, ConfigError>)
        ensures
            match r {
                Ok(named) => transport_named(value@) == Some(named),
                Err(ConfigError::InvalidTransport { value: shown }) => transport_named(value@) is None && shown@ == value@,
                Err(_) => false,
            },
    {
        if same_text(value, "stdout") {
            Ok(Transport::Stdout)
        } else if same_text(value, "tcp") {
            Ok(Transport::Tcp)
        } else if same_text(value, "pipe") {
            Ok(Transport::Pipe)
        } else {
            Err(ConfigError::InvalidTransport { value: value.to_owned() })
        }
    }
}

impl std::str::FromStr for Transport {
    type Err = ConfigError;

    fn from_str(value: &str) -> (r: Result<Transport, ConfigError>)
        ensures
            match r {
                Ok(named) => transport_named(value@) == Some(named),
                Err(ConfigError::InvalidTransport { value: shown }) => transport_named(value@) is None && shown@ == value@,
                Err(_) => false,
            },
    {
        Transport::parse(value)
    }
}

/// Encoding of the stream.
#[derive(Clone, Copy, Debug, PartialEq, Eq, Structural)]
pub enum OutputFormat {
    Postcard,
    Json,
}

/// The encoding of the stream that `text` names.
pub open spec fn output_format_named(text: Seq<char>) -> Option<OutputFormat> {
    if text == "postcard"@ {
        Some(OutputFormat::Postcard)
    } else if text == "json"@ {
        Some(OutputFormat::Json)
    } else {
        None
    }
}

impl OutputFormat {
    /// The name, as configured.
    pub fn as_str(self) -> (r: &'static str)
        ensures
            r@ == match self {
                OutputFormat::Postcard => "postcard"@,
                OutputFormat::Json => "json"@,
            },
            output_format_named(r@) == Some(self),
    {
        proof {
            reveal_strlit("postcard");
            reveal_strlit("json");
            assert("postcard"@.len() == 8 && "postcard"@[0] == 'p');
            assert("json"@.len() == 4 && "json"@[0] == 'j');
        }
        match self {
            OutputFormat::Postcard => "postcard",
            OutputFormat::Json => "json",
        }
    }

    /// The value that `value` names.
    pub fn parse(value: &str) -> (r: Result<OutputFormat, ConfigError>)
        ensures
            match r {
                Ok(named) => output_format_named(value@) == Some(named),
                Err(ConfigError::InvalidFormat { value: shown }) => output_format_named(value@) is None && shown@ == value@,
                Err(_) => false,
            },
    {
        if same_text(value, "postcard") {
            Ok(OutputFormat::Postcard)
        } else if same_text(value, "json") {
            Ok(OutputFormat::Json)
        } else {
            Err(ConfigError::InvalidFormat { value: value.to_owned() })
        }
    }
}

impl std::str::FromStr for OutputFormat {
    type Err = ConfigError;

    fn from_str(value: &str) -> (r: Result<OutputFormat, ConfigError>)
        ensures
            match r {
                Ok(named) => output_format_named(value@) == Some(named),
                Err(ConfigError::InvalidFormat { value: shown }) => output_format_named(value@) is None && shown@ == value@,
                Err(_) => false,
            },
    {
        OutputFormat::parse(value)
    }
}

/// Least severity that is logged.
#[derive(Clone, Copy, Debug, PartialEq, Eq, Structural)]
pub enum LogLevel {
    Trace,
    Debug,
    Info,
    Warn,
    Error,
}

/// The least severity that is logged that `text` names.
pub open spec fn log_level_named(text: Seq<char>) -> Option<LogLevel> {
    if text == "trace"@ {
        Some(LogLevel::Trace)
    } else if text == "debug"@ {
        Some(LogLevel::Debug)
    } else if text == "info"@ {
        Some(LogLevel::Info)
    } else if text == "warn"@ {
        Some(LogLevel::Warn)
    } else if text == "error"@ {
        Some(LogLevel::Error)
    } else {
        None
    }
}

impl LogLevel {
    /// The name, as configured.
    pub fn as_str(self) -> (r: &'static str)
        ensures
            r@ == match self {
                LogLevel::Trace => "trace"@,
                LogLevel::Debug => "debug"@,
                LogLevel::Info => "info"@,
                LogLevel::Warn => "warn"@,
                LogLevel::Error => "error"@,
            },
            log_level_named(r@) == Some(self),
    {
        proof {
            reveal_strlit("trace");
            reveal_strlit("debug");
            reveal_strlit("info");
            reveal_strlit("warn");
            reveal_strlit("error");
            assert("trace"@.len() == 5 && "trace"@[0] == 't');
            assert("debug"@.len() == 5 && "debug"@[0] == 'd');
            assert("info"@.len() == 4 && "info"@[0] == 'i');
            assert("warn"@.len() == 4 && "warn"@[0] == 'w');
            assert("error"@.len() == 5 && "error"@[0] == 'e');
        }
        match self {
            LogLevel::Trace => "trace",
            LogLevel::Debug => "debug",
            LogLevel::Info => "info",
            LogLevel::Warn => "warn",
            LogLevel::Error => "error",
        }
    }

    /// The value that `value` names.
    pub fn parse(value: &str) -> (r: Result<LogLevel, ConfigError>)
        ensures
            match r {
                Ok(named) => log_level_named(value@) == Some(named),
                Err(ConfigError::InvalidLogLevel { value: shown }) => log_level_named(value@) is None && shown@ == value@,
                Err(_) => false,
            },
    {
        if same_text(value, "trace") {
            Ok(LogLevel::Trace)
        } else if same_text(value, "debug") {
            Ok(LogLevel::Debug)
        } else if same_text(value, "info") {
            Ok(LogLevel::Info)
        } else if same_text(value, "warn") {
            Ok(LogLevel::Warn)
        } else if same_text(value, "error") {
            Ok(LogLevel::Error)
        } else {
            Err(ConfigError::InvalidLogLevel { value: value.to_owned() })
        }
    }
}

impl std::str::FromStr for LogLevel {
    type Err = ConfigError;

    fn from_str(value: &str) -> (r: Result<LogLevel, ConfigError>)
        ensures
            match r {
                Ok(named) => log_level_named(value@) == Some(named),
                Err(ConfigError::InvalidLogLevel { value: shown }) => log_level_named(value@) is None && shown@ == value@,
                Err(_) => false,
            },
    {
        LogLevel::parse(value)
    }
}

impl From<OutputFormat> for Format {
    fn from(value: OutputFormat) -> (r: Format) {
        match value {
            OutputFormat::Postcard => Format::Postcard,
            OutputFormat::Json => Format::Json,
        }
    }
}

impl vstd::std_specs::convert::FromSpecImpl<OutputFormat> for Format {
    open spec fn obeys_from_spec() -> bool {
        true
    }

    open spec fn from_spec(value: OutputFormat) -> Format {
        match value {
            OutputFormat::Postcard => Format::Postcard,
            OutputFormat::Json => Format::Json,
        }
    }
}

/// What is captured.
#[derive(Clone, Debug, PartialEq)]
pub struct CaptureConfig {
    /// Rate to ask the device for.
    pub requested_rate_hz: u32,
    /// Events that the queue between capture and stream holds.
    pub queue_size: u32,
    /// Does the vertical axis grow downward?
    pub flip_y: bool,
    /// Fields to capture.
    pub fields: Vec<String>,
}

/// Where the stream goes.
#[derive(Clone, Debug, PartialEq)]
pub struct OutputConfig {
    pub transport: Transport,
    pub format: OutputFormat,
    /// Address to listen on.
    pub tcp_addr: String,
    /// Name of the pipe.
    pub pipe_name: String,
}

/// What is reported about the session.
#[derive(Clone, Debug, PartialEq)]
pub struct TelemetryConfig {
    /// Time between two metrics messages.
    pub metrics_interval_ms: u64,
    pub log_level: LogLevel,
}

/// The configuration of a session.
#[derive(Clone, Debug, PartialEq)]
pub struct Config {
    pub capture: CaptureConfig,
    pub output: OutputConfig,
    pub telemetry: TelemetryConfig,
}

/// The texts of a list of strings.
pub open spec fn texts(list: Seq<String>) -> Seq<Seq<char>> {
    list.map_values(|s: String| s@)
}

/// The fields that are captured where none are named.
pub open spec fn default_fields() -> Seq<Seq<char>> {
    seq!["x"@, "y"@, "pressure"@, "tilt"@, "rotation"@, "tangent"@, "buttons"@]
}

impl CaptureConfig {
    /// Is this what is captured where nothing is configured?
    pub open spec fn is_default(self) -> bool {
        &&& self.requested_rate_hz == 200
        &&& self.queue_size == 1024
        &&& self.flip_y
        &&& texts(self.fields@) == default_fields()
    }
}

impl OutputConfig {
    /// Is this where the stream goes where nothing is configured?
    pub open spec fn is_default(self) -> bool {
        &&& self.transport == Transport::Stdout
        &&& self.format == OutputFormat::Postcard
        &&& self.tcp_addr@ == "127.0.0.1:9123"@
        &&& self.pipe_name@ == "wacom-capture"@
    }
}

impl TelemetryConfig {
    /// Is this what is reported where nothing is configured?
    pub open spec fn is_default(self) -> bool {
        self.metrics_interval_ms == 1000 && self.log_level == LogLevel::Info
    }
}

impl Default for CaptureConfig {
    fn default() -> (r: CaptureConfig)
        ensures
            r.is_default(),
    {
        let fields = vec![
            "x".to_owned(),
            "y".to_owned(),
            "pressure".to_owned(),
            "tilt".to_owned(),
            "rotation".to_owned(),
            "tangent".to_owned(),
            "buttons".to_owned(),
        ];
        proof {
            assert(texts(fields@) =~= default_fields());
        }
        CaptureConfig { requested_rate_hz: 200, queue_size: 1024, flip_y: true, fields }
    }
}

impl Default for OutputConfig {
    fn default() -> (r: OutputConfig)
        ensures
            r.is_default(),
    {
        OutputConfig {
            transport: Transport::Stdout,
            format: OutputFormat::Postcard,
            tcp_addr: "127.0.0.1:9123".to_owned(),
            pipe_name: "wacom-capture".to_owned(),
        }
    }
}

impl Default for TelemetryConfig {
    fn default() -> (r: TelemetryConfig)
        ensures
            r.is_default(),
    {
        TelemetryConfig { metrics_interval_ms: 1000, log_level: LogLevel::Info }
    }
}

impl Default for Config {
    fn default() -> (r: Config)
        ensures
            r.capture.is_default(),
            r.output.is_default(),
            r.telemetry.is_default(),
    {
        Config {
            capture: CaptureConfig::default(),
            output: OutputConfig::default(),
            telemetry: TelemetryConfig::default(),
        }
    }
}

/// Why a configuration cannot be used.
#[derive(Clone, Debug)]
pub enum ConfigError {
    /// The file could not be read.
    ReadConfig { path: String, message: String },
    /// The file is no configuration.
    ParseConfig { path: String, message: String },
    InvalidTransport { value: String },
    InvalidFormat { value: String },
    InvalidLogLevel { value: String },
    InvalidQueueSize,
    InvalidRequestedRate,
    InvalidMetricsInterval,
    InvalidTcpAddr { value: String },
    EmptyPipeName,
    EmptyFields,
}

impl ConfigError {
    /// The message for the user.
    pub open spec fn message_text(self) -> Seq<char> {
        match self {
            ConfigError::ReadConfig { path, message } => {
                "failed to read config file '"@ + path@ + "': "@ + message@
            },
            ConfigError::ParseConfig { path, message } => {
                "failed to parse TOML config file '"@ + path@ + "': "@ + message@
            },
            ConfigError::InvalidTransport { value } => {
                "invalid output.transport '"@ + value@ + "'; expected one of: stdout, tcp, pipe"@
            },
            ConfigError::InvalidFormat { value } => {
                "invalid output.format '"@ + value@ + "'; expected one of: postcard, json"@
            },
            ConfigError::InvalidLogLevel { value } => {
                "invalid telemetry.log_level '"@ + value@ + "'; expected one of: trace, debug, info, warn, error"@
            },
            ConfigError::InvalidQueueSize => "capture.queue_size must be greater than 0"@,
            ConfigError::InvalidRequestedRate => "capture.requested_rate_hz must be greater than 0"@,
            ConfigError::InvalidMetricsInterval => "telemetry.metrics_interval_ms must be greater than 0"@,
            ConfigError::InvalidTcpAddr { value } => {
                "output.tcp_addr '"@ + value@ + "' is not a valid socket address; use a value like 127.0.0.1:9123"@
            },
            ConfigError::EmptyPipeName => "output.pipe_name must not be empty"@,
            ConfigError::EmptyFields => "capture.fields must contain at least one field"@,
        }
    }

    /// The message for the user.
    pub fn message(&self) -> (r: String)
        ensures
            r@ == self.message_text(),
    {
        match self {
            ConfigError::ReadConfig { path, message } => {
                "failed to read config file '".to_owned().concat(path.as_str()).concat("': ").concat(message.as_str())
            },
            ConfigError::ParseConfig { path, message } => {
                "failed to parse TOML config file '".to_owned().concat(path.as_str()).concat("': ").concat(
                    message.as_str(),
                )
            },
            ConfigError::InvalidTransport { value } => {
                "invalid output.transport '".to_owned().concat(value.as_str()).concat(
                    "'; expected one of: stdout, tcp, pipe",
                )
            },
            ConfigError::InvalidFormat { value } => {
                "invalid output.format '".to_owned().concat(value.as_str()).concat(
                    "'; expected one of: postcard, json",
                )
            },
            ConfigError::InvalidLogLevel { value } => {
                "invalid telemetry.log_level '".to_owned().concat(value.as_str()).concat(
                    "'; expected one of: trace, debug, info, warn, error",
                )
            },
            ConfigError::InvalidQueueSize => "capture.queue_size must be greater than 0".to_owned(),
            ConfigError::InvalidRequestedRate => "capture.requested_rate_hz must be greater than 0".to_owned(),
            ConfigError::InvalidMetricsInterval => {
                "telemetry.metrics_interval_ms must be greater than 0".to_owned()
            },
            ConfigError::InvalidTcpAddr { value } => {
                "output.tcp_addr '".to_owned().concat(value.as_str()).concat(
                    "' is not a valid socket address; use a value like 127.0.0.1:9123",
                )
            },
            ConfigError::EmptyPipeName => "output.pipe_name must not be empty".to_owned(),
            ConfigError::EmptyFields => "capture.fields must contain at least one field".to_owned(),
        }
    }
}

/// Arguments of the capture program. Those given win over the file.
#[derive(Clone, Debug, Default)]
pub struct Args {
    pub transport: Option<String>,
    pub format: Option<String>,
    pub tcp_addr: Option<String>,
    pub pipe_name: Option<String>,
    /// Path of the configuration file.
    pub config: Option<String>,
    pub queue_size: Option<u32>,
    pub requested_rate_hz: Option<u32>,
    pub flip_y: Option<bool>,
    pub log_level: Option<String>,
}

/// `given`, or else `before`.
pub open spec fn overridden<T>(given: Option<T>, before: T) -> T {
    match given {
        Some(value) => value,
        None => before,
    }
}

/// The text of an argument, or else `before`.
pub open spec fn overridden_text(given: Option<String>, before: Seq<char>) -> Seq<char> {
    match given {
        Some(value) => value@,
        None => before,
    }
}

impl Args {
    /// Does the transport argument, where given, name a transport?
    pub open spec fn transport_ok(self) -> bool {
        self.transport matches Some(text) ==> transport_named(text@) is Some
    }

    /// Does the format argument, where given, name a format?
    pub open spec fn format_ok(self) -> bool {
        self.format matches Some(text) ==> output_format_named(text@) is Some
    }

    /// Does the log level argument, where given, name a level?
    pub open spec fn log_level_ok(self) -> bool {
        self.log_level matches Some(text) ==> log_level_named(text@) is Some
    }

    /// Is this configuration the one `before` with the arguments put in, as far
    /// as they are good? A bad transport stops everything after it, and so does
    /// a bad format.
    pub open spec fn applied(self, before: Config, after: Config) -> bool {
        let past_transport = self.transport_ok();
        let past_format = past_transport && self.format_ok();
        &&& after.output.transport == match self.transport {
            Some(text) => overridden(transport_named(text@), before.output.transport),
            None => before.output.transport,
        }
        &&& after.output.format == match self.format {
            Some(text) if past_transport => overridden(output_format_named(text@), before.output.format),
            _ => before.output.format,
        }
        &&& after.telemetry.log_level == match self.log_level {
            Some(text) if past_format => overridden(log_level_named(text@), before.telemetry.log_level),
            _ => before.telemetry.log_level,
        }
        &&& past_format ==> {
            &&& after.output.tcp_addr@ == overridden_text(self.tcp_addr, before.output.tcp_addr@)
            &&& after.output.pipe_name@ == overridden_text(self.pipe_name, before.output.pipe_name@)
            &&& after.capture.queue_size == overridden(self.queue_size, before.capture.queue_size)
            &&& after.capture.requested_rate_hz == overridden(
                self.requested_rate_hz,
                before.capture.requested_rate_hz,
            )
            &&& after.capture.flip_y == overridden(self.flip_y, before.capture.flip_y)
        }
        &&& !past_format ==> {
            &&& after.output.tcp_addr@ == before.output.tcp_addr@
            &&& after.output.pipe_name@ == before.output.pipe_name@
            &&& after.capture.queue_size == before.capture.queue_size
            &&& after.capture.requested_rate_hz == before.capture.requested_rate_hz
            &&& after.capture.flip_y == before.capture.flip_y
        }
        &&& after.capture.fields@ == before.capture.fields@
        &&& after.telemetry.metrics_interval_ms == before.telemetry.metrics_interval_ms
    }
}

/// Put in the arguments that cannot be wrong.
fn apply_plain_overrides(config: &mut Config, args: &Args)
    ensures
        final(config).output.transport == old(config).output.transport,
        final(config).output.format == old(config).output.format,
        final(config).telemetry == old(config).telemetry,
        final(config).capture.fields == old(config).capture.fields,
        final(config).output.tcp_addr@ == overridden_text(args.tcp_addr, old(config).output.tcp_addr@),
        final(config).output.pipe_name@ == overridden_text(args.pipe_name, old(config).output.pipe_name@),
        final(config).capture.queue_size == overridden(args.queue_size, old(config).capture.queue_size),
        final(config).capture.requested_rate_hz == overridden(
            args.requested_rate_hz,
            old(config).capture.requested_rate_hz,
        ),
        final(config).capture.flip_y == overridden(args.flip_y, old(config).capture.flip_y),
{
    if let Some(tcp_addr) = &args.tcp_addr {
        config.output.tcp_addr = tcp_addr.clone();
    }
    if let Some(pipe_name) = &args.pipe_name {
        config.output.pipe_name = pipe_name.clone();
    }
    if let Some(queue_size) = args.queue_size {
        config.capture.queue_size = queue_size;
    }
    if let Some(requested_rate_hz) = args.requested_rate_hz {
        config.capture.requested_rate_hz = requested_rate_hz;
    }
    if let Some(flip_y) = args.flip_y {
        config.capture.flip_y = flip_y;
    }
}

/// Put the arguments into a configuration.
pub fn apply_cli_overrides(config: &mut Config, args: &Args) -> (r: Result<(), ConfigError>)
    ensures
        args.applied(*old(config), *final(config)),
        match r {
            Ok(_) => args.transport_ok() && args.format_ok() && args.log_level_ok(),
            Err(ConfigError::InvalidTransport { value }) => !args.transport_ok() && value@ == args.transport->0@,
            Err(ConfigError::InvalidFormat { value }) => args.transport_ok() && !args.format_ok() && value@
                == args.format->0@,
            Err(ConfigError::InvalidLogLevel { value }) => args.transport_ok() && args.format_ok()
                && !args.log_level_ok() && value@ == args.log_level->0@,
            Err(_) => false,
        },
{
    if let Some(transport) = &args.transport {
        match Transport::parse(transport.as_str()) {
            Ok(named) => {
                config.output.transport = named;
            },
            Err(error) => {
                return Err(error);
            },
        }
    }
    if let Some(format) = &args.format {
        match OutputFormat::parse(format.as_str()) {
            Ok(named) => {
                config.output.format = named;
            },
            Err(error) => {
                return Err(error);
            },
        }
    }
    apply_plain_overrides(config, args);
    if let Some(log_level) = &args.log_level {
        match LogLevel::parse(log_level.as_str()) {
            Ok(named) => {
                config.telemetry.log_level = named;
            },
            Err(error) => {
                return Err(error);
            },
        }
    }
    Ok(())
}

impl Config {
    /// Can a session run with this, given whether the address to listen on is
    /// a socket address?
    pub open spec fn usable(self, tcp_addr_is_socket: bool) -> bool {
        &&& self.capture.queue_size > 0
        &&& self.capture.requested_rate_hz > 0
        &&& self.capture.fields@.len() > 0
        &&& self.telemetry.metrics_interval_ms > 0
        &&& !is_blank_text(self.output.pipe_name@)
        &&& tcp_addr_is_socket
    }

    /// Check the configuration. `tcp_addr_is_socket` says whether
    /// `output.tcp_addr` reads as a socket address. The first of several faults
    /// is reported, in the order of the error's clauses.
    pub fn validate(&self, tcp_addr_is_socket: bool) -> (r: Result<(), ConfigError>)
        ensures
            r is Ok <==> self.usable(tcp_addr_is_socket),
            match r {
                Ok(_) => true,
                Err(ConfigError::InvalidQueueSize) => self.capture.queue_size == 0,
                Err(ConfigError::InvalidRequestedRate) => self.capture.queue_size > 0
                    && self.capture.requested_rate_hz == 0,
                Err(ConfigError::EmptyFields) => self.capture.queue_size > 0 && self.capture.requested_rate_hz > 0
                    && self.capture.fields@.len() == 0,
                Err(ConfigError::InvalidMetricsInterval) => self.capture.queue_size > 0
                    && self.capture.requested_rate_hz > 0 && self.capture.fields@.len() > 0
                    && self.telemetry.metrics_interval_ms == 0,
                Err(ConfigError::EmptyPipeName) => self.capture.queue_size > 0 && self.capture.requested_rate_hz > 0
                    && self.capture.fields@.len() > 0 && self.telemetry.metrics_interval_ms > 0 && is_blank_text(
                    self.output.pipe_name@,
                ),
                Err(ConfigError::InvalidTcpAddr { value }) => self.capture.queue_size > 0
                    && self.capture.requested_rate_hz > 0 && self.capture.fields@.len() > 0
                    && self.telemetry.metrics_interval_ms > 0 && !is_blank_text(self.output.pipe_name@)
                    && !tcp_addr_is_socket && value@ == self.output.tcp_addr@,
                Err(_) => false,
            },
    {
        if self.capture.queue_size == 0 {
            return Err(ConfigError::InvalidQueueSize);
        }
        if self.capture.requested_rate_hz == 0 {
            return Err(ConfigError::InvalidRequestedRate);
        }
        if self.capture.fields.len() == 0 {
            return Err(ConfigError::EmptyFields);
        }
        if self.telemetry.metrics_interval_ms == 0 {
            return Err(ConfigError::InvalidMetricsInterval);
        }
        if is_blank(self.output.pipe_name.as_str()) {
            return Err(ConfigError::EmptyPipeName);
        }
        if !tcp_addr_is_socket {
            return Err(ConfigError::InvalidTcpAddr { value: self.output.tcp_addr.clone() });
        }
        Ok(())
    }
}

/// A configuration that nobody has changed can be used.
pub proof fn defaults_are_usable(config: Config)
    requires
        config.capture.is_default(),
        config.output.is_default(),
        config.telemetry.is_default(),
    ensures
        config.usable(true),
{
    reveal_strlit("wacom-capture");
    assert("wacom-capture"@[0] == 'w');
    assert(texts(config.capture.fields@).len() == config.capture.fields@.len());
}

/// Where no argument is given, the configuration stays as it is.
pub proof fn no_arguments_change_nothing(args: Args, before: Config, after: Config)
    requires
        args.transport is None,
        args.format is None,
        args.tcp_addr is None,
        args.pipe_name is None,
        args.queue_size is None,
        args.requested_rate_hz is None,
        args.flip_y is None,
        args.log_level is None,
        args.applied(before, after),
    ensures
        after.output.transport == before.output.transport,
        after.output.format == before.output.format,
        after.output.tcp_addr@ == before.output.tcp_addr@,
        after.output.pipe_name@ == before.output.pipe_name@,
        after.capture.queue_size == before.capture.queue_size,
        after.capture.requested_rate_hz == before.capture.requested_rate_hz,
        after.capture.flip_y == before.capture.flip_y,
        after.capture.fields@ == before.capture.fields@,
        after.telemetry == before.telemetry,
{
}

/// Without a configuration, 200 samples a second go to standard output as
/// postcard, through a queue of 1024, with metrics every second.
pub proof fn configurations_start_usable(r: Config)
    requires
        call_ensures(<Config as Default>::default, (), r),
    ensures
        r.capture.requested_rate_hz == 200,
        r.capture.queue_size == 1024,
        r.capture.flip_y,
        r.capture.fields@.len() == 7,
        r.output.transport is Stdout,
        r.output.format is Postcard,
        r.output.tcp_addr@ == "127.0.0.1:9123"@,
        r.output.pipe_name@ == "wacom-capture"@,
        r.telemetry.metrics_interval_ms == 1000,
        r.telemetry.log_level is Info,
{
    assert(texts(r.capture.fields@).len() == r.capture.fields@.len());
}

/// Messages quote the file or the value that they are about.
pub proof fn messages_quote_the_value(error: ConfigError, r: String)
    requires
        call_ensures(ConfigError::message, (&error,), r),
    ensures
        error matches ConfigError::ReadConfig { path, message } ==> r@ == "failed to read config file '"@ + path@ + "': "@
            + message@,
        error matches ConfigError::ParseConfig { path, message } ==> r@ == "failed to parse TOML config file '"@ + path@
            + "': "@ + message@,
        error matches ConfigError::InvalidTransport { value } ==> r@ == "invalid output.transport '"@ + value@
            + "'; expected one of: stdout, tcp, pipe"@,
        error matches ConfigError::InvalidFormat { value } ==> r@ == "invalid output.format '"@ + value@
            + "'; expected one of: postcard, json"@,
        error matches ConfigError::InvalidLogLevel { value } ==> r@ == "invalid telemetry.log_level '"@ + value@
            + "'; expected one of: trace, debug, info, warn, error"@,
        error matches ConfigError::InvalidTcpAddr { value } ==> r@ == "output.tcp_addr '"@ + value@
            + "' is not a valid socket address; use a value like 127.0.0.1:9123"@,
{
}

} // verus!
