use mscp::types::{ConfigError, GenericError, MscpError};

#[test]
fn io_errors_wrap_into_the_engine_error() {
    let io = std::io::Error::new(std::io::ErrorKind::NotFound, "no such file");
    let err = MscpError::from(io);
    assert!(matches!(err, MscpError::StdIo(_)));
    let text = err.source();
    assert!(text.contains("no such file"));
}

#[test]
fn config_errors_describe_their_fault() {
    let err = MscpError::invalid_config(ConfigError::ZeroConcurrency);
    assert_eq!(err.source(), "concurrency must be at least 1");
    let err = MscpError::invalid_config(ConfigError::ZeroSegmentSize);
    assert_eq!(err.source(), "segment size must be at least 1");
}

#[test]
fn every_error_carries_a_backtrace() {
    let io = std::io::Error::new(std::io::ErrorKind::PermissionDenied, "denied");
    let err = MscpError::from_io(io);
    // The capture may be disabled in this environment; it must still exist.
    let _ = err.backtrace();
    let err = MscpError::invalid_config(ConfigError::ZeroConcurrency);
    let _ = err.backtrace();
}

#[test]
fn generic_errors_wrap_any_source() {
    let wrapped: GenericError<std::io::Error> =
        std::io::Error::new(std::io::ErrorKind::UnexpectedEof, "short read").into();
    drop(wrapped);
}
