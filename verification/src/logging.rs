//! Log levels of the kernel logger: the level chosen from the `LOG` setting
//! given at build time, and the prefix printed before each record.

use vstd::prelude::*;

verus! {

/// Severity of a log record, from most to least severe.
#[derive(Copy, Clone, Debug, PartialEq, Eq, Structural)]
pub enum LogLevel {
    Error,
    Warn,
    Info,
    Debug,
    Trace,
}

/// The level named by a `LOG` setting: one of `error`, `warn`, `info`,
/// `debug`, `trace`; anything else, or no setting, means `info`.
pub open spec fn log_level_spec(name: Option<Seq<u8>>) -> LogLevel {
    match name {
        Some(n) => if n == seq![101u8, 114, 114, 111, 114] {
            LogLevel::Error
        } else if n == seq![119u8, 97, 114, 110] {
            LogLevel::Warn
        } else if n == seq![100u8, 101, 98, 117, 103] {
            LogLevel::Debug
        } else if n == seq![116u8, 114, 97, 99, 101] {
            LogLevel::Trace
        } else {
            LogLevel::Info
        },
        None => LogLevel::Info,
    }
}

/// Whether two byte strings are equal.
fn bytes_eq(a: &[u8], b: &[u8]) -> (r: bool)
    ensures
        r == (a@ == b@),
{
    if a.len() != b.len() {
        return false;
    }
    let mut i: usize = 0;
    while i < a.len()
        invariant
            i <= a@.len(),
            a@.len() == b@.len(),
            forall|k: int| 0 <= k < i ==> a@[k] == b@[k],
        decreases a@.len() - i,
    {
        if a[i] != b[i] {
            return false;
        }
        i = i + 1;
    }
    assert(a@ =~= b@);
    true
}

/// The logger's level for the `LOG` setting `name` (see [`log_level_spec`]).
pub fn log_level_from_name(name: Option<&[u8]>) -> (r: LogLevel)
    ensures
        r == log_level_spec(
            match name {
                Some(n) => Some(n@),
                None => None,
            },
        ),
{
    match name {
        None => LogLevel::Info,
        Some(n) => {
            let error: [u8; 5] = [101u8, 114, 114, 111, 114];
            let warn: [u8; 4] = [119u8, 97, 114, 110];
            let debug: [u8; 5] = [100u8, 101, 98, 117, 103];
            let trace: [u8; 5] = [116u8, 114, 97, 99, 101];
            assert(error@ =~= seq![101u8, 114, 114, 111, 114]);
            assert(warn@ =~= seq![119u8, 97, 114, 110]);
            assert(debug@ =~= seq![100u8, 101, 98, 117, 103]);
            assert(trace@ =~= seq![116u8, 114, 97, 99, 101]);
            if bytes_eq(n, error.as_slice()) {
                LogLevel::Error
            } else if bytes_eq(n, warn.as_slice()) {
                LogLevel::Warn
            } else if bytes_eq(n, debug.as_slice()) {
                LogLevel::Debug
            } else if bytes_eq(n, trace.as_slice()) {
                LogLevel::Trace
            } else {
                LogLevel::Info
            }
        },
    }
}

/// The tag printed before a record of each level.
pub fn level_prefix(level: LogLevel) -> (r: &'static str)
    ensures
        r@ == match level {
            LogLevel::Error => "[ERROR]"@,
            LogLevel::Warn => "[WARN ]"@,
            LogLevel::Info => "[INFO ]"@,
            LogLevel::Debug => "[DEBUG]"@,
            LogLevel::Trace => "[TRACE]"@,
        },
{
    match level {
        LogLevel::Error => "[ERROR]",
        LogLevel::Warn => "[WARN ]",
        LogLevel::Info => "[INFO ]",
        LogLevel::Debug => "[DEBUG]",
        LogLevel::Trace => "[TRACE]",
    }
}

} // verus!
