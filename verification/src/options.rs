use vstd::prelude::*;

verus! {

/// Configuration for one run of the copy engine, as the command line supplies
/// it.
#[derive(Clone, Debug)]
pub struct Options {
    /// File path for saving the log; empty means standard output.
    pub log_file: String,
    /// Log level: 0 to 4 select TRACE, DEBUG, INFO, WARN, ERROR; any other
    /// value switches logging off.
    pub log_level: u8,
    /// Desired number of simultaneously running segment copies; also the
    /// segment count when no segment size is given.
    pub thread_count: usize,
    /// The size of each segment in MB; when present, selects size-based
    /// planning.
    pub segment_size: Option<u64>,
    /// The source file path.
    pub source: String,
    /// The destination file path.
    pub destination: String,
    /// The buffer size for the copy routine, in kB.
    pub buffer_size: usize,
}

} // verus!
