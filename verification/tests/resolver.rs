use remote_log::addr::{IpAddress, SockAddr};
use remote_log::resolve::{lookup_due_exec, resolve_remotes, DOMAIN_LOOKUP_INTERVAL};
use remote_log::wire::Level;
use remote_log::writer::RemoteLogWriter;

fn test_writer(remotes: Vec<String>, port: u16) -> RemoteLogWriter {
    RemoteLogWriter::new(
        "myhost".to_string(),
        remotes,
        port,
        "mytag".to_string(),
        Vec::new(),
        "prog".to_string(),
        99,
    )
}

#[test]
fn lookup_gate_arithmetic() {
    assert!(lookup_due_exec(0, DOMAIN_LOOKUP_INTERVAL));
    assert!(!lookup_due_exec(0, DOMAIN_LOOKUP_INTERVAL - 1));
    assert!(lookup_due_exec(1000, 1000 + DOMAIN_LOOKUP_INTERVAL));
    assert!(!lookup_due_exec(1000, 1000 + DOMAIN_LOOKUP_INTERVAL - 1));
    // a gate stored near the integer limit can never come due again
    assert!(!lookup_due_exec(u64::MAX, u64::MAX));
}

#[test]
fn second_attempt_within_interval_reuses_cache() {
    let mut w = test_writer(vec!["10.0.0.1".to_string()], 514);
    w.domain_name_lookup(1000);
    assert_eq!(w.config.last_lookup, 1000);
    assert_eq!(
        w.config.remote_addrs,
        vec![SockAddr { ip: IpAddress::V4(0x0A000001), port: 514 }]
    );
    // the list changes, but the next attempt lies inside the interval:
    // no lookup runs and the cached set is reused as it stands
    w.config.set_remotes(vec!["10.0.0.2".to_string()], 515);
    w.domain_name_lookup(1000 + DOMAIN_LOOKUP_INTERVAL - 1);
    assert_eq!(w.config.last_lookup, 1000);
    assert_eq!(
        w.config.remote_addrs,
        vec![SockAddr { ip: IpAddress::V4(0x0A000001), port: 514 }]
    );
    // once the interval has passed the new list resolves as a whole
    w.domain_name_lookup(1000 + DOMAIN_LOOKUP_INTERVAL);
    assert_eq!(w.config.last_lookup, 1000 + DOMAIN_LOOKUP_INTERVAL);
    assert_eq!(
        w.config.remote_addrs,
        vec![SockAddr { ip: IpAddress::V4(0x0A000002), port: 515 }]
    );
}

#[test]
fn literal_survives_unresolvable_neighbour() {
    // one literal IP and one unresolvable name: resolution succeeds for the
    // literal and the result holds exactly that one entry
    let remotes = vec!["10.0.0.1".to_string(), "no-such-host.invalid".to_string()];
    let addrs = resolve_remotes(&remotes, 514);
    assert_eq!(addrs, vec![SockAddr { ip: IpAddress::V4(0x0A000001), port: 514 }]);
}

#[test]
fn set_remotes_then_write_addresses_datagram() {
    let mut w = test_writer(Vec::new(), 0);
    w.config.set_enabled(true);
    w.config.set_remotes(vec!["10.0.0.1".to_string()], 514);
    let out = w.write(1000, 0, Level::Info, &None, "hello");
    assert_eq!(out.len(), 1);
    let d = &out[0];
    assert_eq!(d.dests, vec![SockAddr { ip: IpAddress::V4(0x0A000001), port: 514 }]);
    assert_eq!(*d.payload.last().unwrap(), b'\n');
    assert!(!d.warning);
    let text = String::from_utf8_lossy(&d.payload);
    assert!(text.contains("myhost"));
    assert!(text.contains("mytag[99]: "));
    assert!(text.contains("[INFO] hello"));
}

#[test]
fn empty_tag_falls_back_to_program_name() {
    let w = RemoteLogWriter::new(
        "h".to_string(),
        Vec::new(),
        0,
        String::new(),
        Vec::new(),
        "my-program".to_string(),
        1,
    );
    assert_eq!(w.tag, "my-program");
    let w2 = test_writer(Vec::new(), 0);
    assert_eq!(w2.tag, "mytag");
}

#[test]
fn record_line_carries_source_location() {
    let mut w = test_writer(vec!["10.0.0.1".to_string()], 514);
    w.config.set_enabled(true);
    let source = Some(("agent.rs".to_string(), 42));
    let out = w.write(1000, 0, Level::Warn, &source, "careful");
    assert_eq!(out.len(), 1);
    let text = String::from_utf8_lossy(&out[0].payload);
    assert!(text.contains("[WARN] agent.rs:42 careful"));
}

#[test]
fn disabled_writer_emits_nothing() {
    let mut w = test_writer(vec!["10.0.0.1".to_string()], 514);
    let out = w.write(1000, 0, Level::Error, &None, "dropped");
    assert!(out.is_empty());
    assert_eq!(w.config.last_lookup, 0);
    assert!(w.config.remote_addrs.is_empty());
}

#[test]
fn suppressed_record_skips_resolution() {
    let mut w = test_writer(vec!["10.0.0.1".to_string()], 514);
    w.config.set_enabled(true);
    w.config.set_threshold(1);
    let now = 7200;
    let first = w.write(now, 0, Level::Info, &None, "a");
    assert_eq!(first.len(), 1);
    // the second record reaches the threshold: one warning line goes out,
    // the record itself is suppressed, and the resolver gate is untouched
    let lookup_before = w.config.last_lookup;
    let second = w.write(now, 0, Level::Info, &None, "b");
    assert_eq!(second.len(), 1);
    let text = String::from_utf8_lossy(&second[0].payload);
    assert!(text.contains("[WARN] Log threshold is exceeding, current config is 1."));
    assert!(second[0].warning);
    assert_eq!(w.config.last_lookup, lookup_before);
    // the third is silently suppressed: nothing at all goes out
    let third = w.write(now, 0, Level::Info, &None, "c");
    assert!(third.is_empty());
}

#[test]
fn rollover_warning_line_reports_losses() {
    let mut w = test_writer(vec!["10.0.0.1".to_string()], 514);
    w.config.set_enabled(true);
    w.config.set_threshold(2);
    let now = 7200;
    for _ in 0..5 {
        w.write(now, 0, Level::Info, &None, "x");
    }
    // five counted against threshold 2: the rollover reports three lost
    let out = w.write(now + 3600, 0, Level::Info, &None, "next-hour");
    assert_eq!(out.len(), 2);
    let warn = String::from_utf8_lossy(&out[0].payload);
    assert!(warn.contains("[WARN] Log threshold exceeded, lost 3 logs."));
    assert!(out[0].warning);
    let rec = String::from_utf8_lossy(&out[1].payload);
    assert!(rec.contains("next-hour"));
    assert!(!out[1].warning);
}
