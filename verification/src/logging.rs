//! Colours of log lines.
use vstd::prelude::*;

verus! {

/// How important a log line is, from the most to the least.
#[derive(Clone, Copy, PartialEq, Eq, Structural, Debug)]
pub enum LogLevel {
    Error,
    Warn,
    Info,
    Debug,
    Trace,
}

/// The ANSI colour code that a log line of `level` is printed in: red for
/// errors, bright yellow for warnings, blue for information, green for
/// debugging and bright black for traces.
pub fn level_to_color_code(level: LogLevel) -> (r: u8)
    ensures
        r == match level {
            LogLevel::Error => 31u8,
            LogLevel::Warn => 93u8,
            LogLevel::Info => 34u8,
            LogLevel::Debug => 32u8,
            LogLevel::Trace => 90u8,
        },
{
    match level {
        LogLevel::Error => 31,
        LogLevel::Warn => 93,
        LogLevel::Info => 34,
        LogLevel::Debug => 32,
        LogLevel::Trace => 90,
    }
}

/// The most detailed level of log line that is printed, or none at all.
#[derive(Clone, Copy, PartialEq, Eq, Structural, Debug)]
pub enum LogLevelFilter {
    Off,
    Error,
    Warn,
    Info,
    Debug,
    Trace,
}

/// The filter that the build-time setting named `name` selects: `ERROR`,
/// `WARN`, `INFO`, `DEBUG` or `TRACE` select that level; anything else
/// turns logging off.
pub open spec fn filter_of_name(name: Seq<u8>) -> LogLevelFilter {
    if name == seq![69u8, 82u8, 82u8, 79u8, 82u8] {
        LogLevelFilter::Error
    } else if name == seq![87u8, 65u8, 82u8, 78u8] {
        LogLevelFilter::Warn
    } else if name == seq![73u8, 78u8, 70u8, 79u8] {
        LogLevelFilter::Info
    } else if name == seq![68u8, 69u8, 66u8, 85u8, 71u8] {
        LogLevelFilter::Debug
    } else if name == seq![84u8, 82u8, 65u8, 67u8, 69u8] {
        LogLevelFilter::Trace
    } else {
        LogLevelFilter::Off
    }
}

fn bytes_equal(a: &[u8], b: &[u8]) -> (r: bool)
    ensures
        r == (a@ == b@),
{
    if a.len() != b.len() {
        return false;
    }
    let mut i: usize = 0;
    while i < a.len()
        invariant
            a@.len() == b@.len(),
            i <= a@.len(),
            forall|j: int| 0 <= j < i ==> a@[j] == b@[j],
        decreases a@.len() - i,
    {
        if a[i] != b[i] {
            return false;
        }
        i = i + 1;
    }
    assert(a@ =~= b@);
    true
}

/// The filter that the `LOG` setting, when it is given as `name`,
/// selects; none when it is not given.
pub fn max_level_of(name: Option<&[u8]>) -> (r: LogLevelFilter)
    ensures
        name is None ==> r == LogLevelFilter::Off,
        name matches Some(n) ==> r == filter_of_name(n@),
{
    match name {
        None => LogLevelFilter::Off,
        Some(n) => {
            let error: [u8; 5] = [69, 82, 82, 79, 82];
            let warn: [u8; 4] = [87, 65, 82, 78];
            let info: [u8; 4] = [73, 78, 70, 79];
            let debug: [u8; 5] = [68, 69, 66, 85, 71];
            let trace: [u8; 5] = [84, 82, 65, 67, 69];
            assert(error@ =~= seq![69u8, 82u8, 82u8, 79u8, 82u8]);
            assert(warn@ =~= seq![87u8, 65u8, 82u8, 78u8]);
            assert(info@ =~= seq![73u8, 78u8, 70u8, 79u8]);
            assert(debug@ =~= seq![68u8, 69u8, 66u8, 85u8, 71u8]);
            assert(trace@ =~= seq![84u8, 82u8, 65u8, 67u8, 69u8]);
            if bytes_equal(n, error.as_slice()) {
                LogLevelFilter::Error
            } else if bytes_equal(n, warn.as_slice()) {
                LogLevelFilter::Warn
            } else if bytes_equal(n, info.as_slice()) {
                LogLevelFilter::Info
            } else if bytes_equal(n, debug.as_slice()) {
                LogLevelFilter::Debug
            } else if bytes_equal(n, trace.as_slice()) {
                LogLevelFilter::Trace
            } else {
                LogLevelFilter::Off
            }
        },
    }
}

} // verus!
