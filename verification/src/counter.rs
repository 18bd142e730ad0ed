//! Passive level-counting sink: tallies error- and warning-level records
//! for an external metrics registry, which polls a non-owning handle and
//! stops once that handle reports its owner gone.

use vstd::prelude::*;
use crate::sink::{LogSink, SendError};
use crate::wire::Level;

verus! {

/// The kind tag of an exported metric sample.
#[derive(Clone, Copy, PartialEq, Eq, Structural, Debug)]
pub enum CounterKind {
    Counted,
}

/// One `(name, kind, value)` metric sample.
pub struct CounterSample {
    pub name: String,
    pub kind: CounterKind,
    pub value: u64,
}

/// `n` bumped by one, wrapping at the integer limit.
pub open spec fn wrap_inc(n: u64) -> u64 {
    if n == u64::MAX {
        0
    } else {
        (n + 1) as u64
    }
}

/// The counting sink.  It owns the two counts; records flow in through the
/// sink interface and never anywhere else.
pub struct LogLevelWriter {
    pub error: u64,
    pub warning: u64,
}

/// The registry's non-owning handle.  The liveness flag is private: within
/// this interface it starts false at `new`, no read (`closed`,
/// `get_counters`) can change it, and only `close` — which consumes the
/// owning writer — sets it, so it turns true exactly at the owner's
/// teardown and never merely because no records flowed.
pub struct LogLevelCounter {
    closed: bool,
}

impl LogLevelWriter {
    /// A fresh writer with zeroed counts, and its registry handle, live.
    pub fn new() -> (r: (LogLevelWriter, LogLevelCounter))
        ensures
            r.0.error == 0,
            r.0.warning == 0,
            !r.1.is_closed(),
    {
        (LogLevelWriter { error: 0, warning: 0 }, LogLevelCounter { closed: false })
    }

    /// Tallies one record: error and warning levels count, every other
    /// level is ignored.
    pub fn record(&mut self, level: Level)
        ensures
            final(self).error == (if level == Level::Error {
                wrap_inc(old(self).error)
            } else {
                old(self).error
            }),
            final(self).warning == (if level == Level::Warn {
                wrap_inc(old(self).warning)
            } else {
                old(self).warning
            }),
    {
        match level {
            Level::Error => {
                self.error = if self.error == u64::MAX {
                    0
                } else {
                    self.error + 1
                };
            },
            Level::Warn => {
                self.warning = if self.warning == u64::MAX {
                    0
                } else {
                    self.warning + 1
                };
            },
            _ => {},
        }
    }

    /// Tears the writer down and marks its registry handle closed: no path
    /// can ever write to the counts again.
    pub fn close(self, handle: &mut LogLevelCounter)
        ensures
            final(handle).is_closed(),
    {
        handle.closed = true;
    }
}

impl LogSink for LogLevelWriter {
    /// Counts the record by level, exactly as `record` does, and always
    /// succeeds; nothing is forwarded.
    fn write(
        &mut self,
        now_secs: u64,
        level: Level,
        source: &Option<(String, u32)>,
        message: &str,
    ) -> (r: Result<(), SendError>)
        ensures
            r == Ok::<(), SendError>(()),
            final(self).error == (if level == Level::Error {
                wrap_inc(old(self).error)
            } else {
                old(self).error
            }),
            final(self).warning == (if level == Level::Warn {
                wrap_inc(old(self).warning)
            } else {
                old(self).warning
            }),
    {
        self.record(level);
        Ok(())
    }

    /// Nothing is buffered: flushing succeeds and changes nothing.
    fn flush(&mut self) -> (r: Result<(), SendError>)
        ensures
            r == Ok::<(), SendError>(()),
            *final(self) == *old(self),
    {
        Ok(())
    }
}

impl LogLevelCounter {
    /// Whether the owning writer has been torn down.
    pub closed spec fn is_closed(&self) -> bool {
        self.closed
    }

    /// Snapshot-and-reset: returns the `(error, counted, n)` and
    /// `(warning, counted, n)` pair read from the owning writer and zeroes
    /// both counts in the same step.
    pub fn get_counters(&self, source: &mut LogLevelWriter) -> (r: Vec<CounterSample>)
        ensures
            final(source).error == 0,
            final(source).warning == 0,
            r@.len() == 2,
            r@[0].name@ == "error"@,
            r@[0].kind == CounterKind::Counted,
            r@[0].value == old(source).error,
            r@[1].name@ == "warning"@,
            r@[1].kind == CounterKind::Counted,
            r@[1].value == old(source).warning,
    {
        let mut r: Vec<CounterSample> = Vec::new();
        r.push(
            CounterSample {
                name: "error".to_owned(),
                kind: CounterKind::Counted,
                value: source.error,
            },
        );
        r.push(
            CounterSample {
                name: "warning".to_owned(),
                kind: CounterKind::Counted,
                value: source.warning,
            },
        );
        source.error = 0;
        source.warning = 0;
        r
    }

    /// Liveness check: true once the owning writer has been torn down; a
    /// quiet writer stays live.
    pub fn closed(&self) -> (r: bool)
        ensures
            r == self.is_closed(),
    {
        self.closed
    }
}

} // verus!
