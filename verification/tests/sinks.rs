use remote_log::counter::{CounterKind, LogLevelWriter};
use remote_log::sink::{combine_results, LogSink, LogWriterAdapter, SendError};
use remote_log::wire::Level;

struct ProbeSink {
    calls: u32,
    fail: Option<SendError>,
}

impl LogSink for ProbeSink {
    fn write(
        &mut self,
        _now_secs: u64,
        _level: Level,
        _source: &Option<(String, u32)>,
        _message: &str,
    ) -> Result<(), SendError> {
        self.calls += 1;
        match self.fail {
            Some(e) => Err(e),
            None => Ok(()),
        }
    }

    fn flush(&mut self) -> Result<(), SendError> {
        match self.fail {
            Some(e) => Err(e),
            None => Ok(()),
        }
    }
}

#[test]
fn combine_results_last_failure_wins() {
    assert_eq!(combine_results(&Vec::new()), Ok(()));
    assert_eq!(combine_results(&vec![Ok(()), Ok(())]), Ok(()));
    assert_eq!(
        combine_results(&vec![Ok(()), Err(SendError { code: 1 }), Ok(())]),
        Err(SendError { code: 1 })
    );
    assert_eq!(
        combine_results(&vec![Err(SendError { code: 1 }), Err(SendError { code: 2 })]),
        Err(SendError { code: 2 })
    );
}

#[test]
fn fanout_invokes_all_and_reports_second_failure() {
    let sinks = vec![
        ProbeSink { calls: 0, fail: None },
        ProbeSink { calls: 0, fail: Some(SendError { code: 32 }) },
        ProbeSink { calls: 0, fail: None },
    ];
    let mut adapter = LogWriterAdapter::new(sinks);
    let r = adapter.write(0, Level::Info, &None, "m");
    // the failure reported is the second sink's, though the third ran after it
    assert_eq!(r, Err(SendError { code: 32 }));
    assert_eq!(adapter.writers.len(), 3);
    for s in &adapter.writers {
        assert_eq!(s.calls, 1);
    }
}

#[test]
fn fanout_order_is_list_order() {
    let sinks = vec![
        ProbeSink { calls: 0, fail: Some(SendError { code: 1 }) },
        ProbeSink { calls: 0, fail: Some(SendError { code: 2 }) },
    ];
    let mut adapter = LogWriterAdapter::new(sinks);
    assert_eq!(adapter.write(0, Level::Info, &None, "m"), Err(SendError { code: 2 }));
    assert_eq!(adapter.flush(), Err(SendError { code: 2 }));
}

#[test]
fn fanout_all_ok() {
    let sinks = vec![
        ProbeSink { calls: 0, fail: None },
        ProbeSink { calls: 0, fail: None },
    ];
    let mut adapter = LogWriterAdapter::new(sinks);
    assert_eq!(adapter.write(0, Level::Error, &None, "m"), Ok(()));
}

#[test]
fn level_counter_snapshot_and_reset() {
    let (mut w, c) = LogLevelWriter::new();
    for _ in 0..2 {
        assert_eq!(w.write(0, Level::Error, &None, "e"), Ok(()));
    }
    for _ in 0..5 {
        assert_eq!(w.write(0, Level::Warn, &None, "w"), Ok(()));
    }
    // other levels are ignored
    assert_eq!(w.write(0, Level::Info, &None, "i"), Ok(()));
    assert_eq!(w.write(0, Level::Trace, &None, "t"), Ok(()));
    let snap = c.get_counters(&mut w);
    assert_eq!(snap.len(), 2);
    assert_eq!(snap[0].name, "error");
    assert!(matches!(snap[0].kind, CounterKind::Counted));
    assert_eq!(snap[0].value, 2);
    assert_eq!(snap[1].name, "warning");
    assert!(matches!(snap[1].kind, CounterKind::Counted));
    assert_eq!(snap[1].value, 5);
    // the read resets: an immediately following read returns zeroes
    let again = c.get_counters(&mut w);
    assert_eq!(again[0].value, 0);
    assert_eq!(again[1].value, 0);
}

#[test]
fn level_counter_liveness_follows_owner() {
    let (mut w, mut c) = LogLevelWriter::new();
    assert!(!c.closed());
    let _ = c.get_counters(&mut w);
    // a long-quiet writer is still live: only teardown closes the handle
    assert!(!c.closed());
    w.close(&mut c);
    assert!(c.closed());
}

#[test]
fn level_counts_wrap_at_integer_limit() {
    let (mut w, c) = LogLevelWriter::new();
    w.error = u64::MAX;
    w.record(Level::Error);
    let snap = c.get_counters(&mut w);
    assert_eq!(snap[0].value, 0);
}

#[test]
fn fanout_empty_is_success() {
    let mut adapter: LogWriterAdapter<ProbeSink> = LogWriterAdapter::new(Vec::new());
    assert_eq!(adapter.write(0, Level::Info, &None, "m"), Ok(()));
    assert_eq!(adapter.flush(), Ok(()));
}
