use vstd::prelude::*;

verus! {

#[verifier::external_type_specification]
#[verifier::external_body]
pub struct ExBacktrace(std::backtrace::Backtrace);

#[verifier::external_type_specification]
#[verifier::external_body]
pub struct ExIoError(std::io::Error);

/// Relies on std::backtrace::Backtrace::capture: records the call stack at
/// the point of the error's origin, for diagnostics only.
#[verifier::external_body]
fn capture_backtrace() -> std::backtrace::Backtrace {
    std::backtrace::Backtrace::capture()
}

/// Relies on the std::fmt::Display impl of std::io::Error: renders the
/// operating-system error's description.
#[verifier::external_body]
fn io_error_text(e: &std::io::Error) -> String {
    format!("{}", e)
}

/// A configuration value the engine rejects before planning begins.
#[derive(Clone, Copy, PartialEq, Eq, Structural, Debug)]
pub enum ConfigError {
    /// The requested concurrency (also the segment count in count-based
    /// planning) is zero.
    ZeroConcurrency,
    /// The requested segment size is zero.
    ZeroSegmentSize,
}

/// An error value together with a capture of the call stack at its origin.
#[derive(Debug)]
pub struct GenericError<T> {
    source: T,
    backtrace: std::backtrace::Backtrace,
}

impl<T> GenericError<T> {
    /// The wrapped error value.
    pub closed spec fn source_of(self) -> T {
        self.source
    }

    fn new(value: T) -> (r: Self)
        ensures
            r.source_of() == value,
    {
        GenericError { source: value, backtrace: capture_backtrace() }
    }
}

impl<T> From<T> for GenericError<T> {
    fn from(value: T) -> (r: Self) {
        GenericError::new(value)
    }
}

impl<T> vstd::std_specs::convert::FromSpecImpl<T> for GenericError<T> {
    open spec fn obeys_from_spec() -> bool {
        false
    }

    open spec fn from_spec(v: T) -> Self {
        arbitrary()
    }
}

/// The copy engine's error: an I/O failure, or a configuration the engine
/// rejects, each carrying a backtrace from its origin.
#[derive(Debug)]
pub enum MscpError {
    StdIo(GenericError<std::io::Error>),
    InvalidConfig(GenericError<ConfigError>),
}

/// The description `MscpError::source` gives for a rejected configuration.
pub open spec fn config_text(k: ConfigError) -> Seq<char> {
    match k {
        ConfigError::ZeroConcurrency => "concurrency must be at least 1"@,
        ConfigError::ZeroSegmentSize => "segment size must be at least 1"@,
    }
}

impl MscpError {
    /// Which rejected configuration value this error reports, if any.
    pub closed spec fn config_fault(self) -> Option<ConfigError> {
        match self {
            MscpError::InvalidConfig(g) => Some(g.source_of()),
            MscpError::StdIo(_) => None,
        }
    }

    /// Which I/O failure this error wraps, if any.
    pub closed spec fn io_fault(self) -> Option<std::io::Error> {
        match self {
            MscpError::StdIo(g) => Some(g.source_of()),
            MscpError::InvalidConfig(_) => None,
        }
    }

    /// The call-stack capture this error carries.
    pub closed spec fn backtrace_of(self) -> std::backtrace::Backtrace {
        match self {
            MscpError::StdIo(g) => g.backtrace,
            MscpError::InvalidConfig(g) => g.backtrace,
        }
    }

    /// Whether this error wraps an I/O failure.
    pub open spec fn is_io(self) -> bool {
        self matches MscpError::StdIo(_)
    }

    /// Reject a configuration value.
    pub fn invalid_config(kind: ConfigError) -> (r: Self)
        ensures
            r.config_fault() == Some(kind),
            r.io_fault() is None,
            !r.is_io(),
    {
        MscpError::InvalidConfig(GenericError::new(kind))
    }

    /// Wrap an I/O failure: the resulting error carries that same failure.
    pub fn from_io(value: std::io::Error) -> (r: Self)
        ensures
            r.is_io(),
            r.io_fault() == Some(value),
            r.config_fault() is None,
    {
        MscpError::StdIo(GenericError::new(value))
    }

    /// The capture of the call stack recorded when the error arose.
    pub fn backtrace(&self) -> (r: &std::backtrace::Backtrace)
        ensures
            *r == self.backtrace_of(),
    {
        match self {
            MscpError::StdIo(e) => &e.backtrace,
            MscpError::InvalidConfig(e) => &e.backtrace,
        }
    }

    /// A description of the underlying error this error was built from.
    pub fn source(&self) -> (r: String)
        ensures
            self.config_fault() matches Some(k) ==> r@ == config_text(k),
    {
        match self {
            MscpError::StdIo(e) => io_error_text(&e.source),
            MscpError::InvalidConfig(e) => match e.source {
                ConfigError::ZeroConcurrency => "concurrency must be at least 1".to_owned(),
                ConfigError::ZeroSegmentSize => "segment size must be at least 1".to_owned(),
            },
        }
    }
}

impl From<std::io::Error> for MscpError {
    fn from(value: std::io::Error) -> (r: Self) {
        MscpError::from_io(value)
    }
}

impl vstd::std_specs::convert::FromSpecImpl<std::io::Error> for MscpError {
    open spec fn obeys_from_spec() -> bool {
        false
    }

    open spec fn from_spec(v: std::io::Error) -> Self {
        arbitrary()
    }
}

} // verus!
