//! The remote writer: per-record entry point that gates on the enabled
//! flag, consults the hourly governor, refreshes the resolver, frames the
//! record and hands the I/O shell the datagrams to send.

use vstd::prelude::*;
use vstd::string::StringSliceAdditionalSpecFns;
use crate::addr::SockAddr;
use crate::config::RemoteLogConfig;
use crate::governor::{check_model, Governor};
use crate::resolve::{lookup_due, lookup_due_exec, resolution_of, resolve_remotes};
use crate::sink::SendError;
use crate::wire::{
    Level, append_bytes, body_spec, build_body, build_line, dec_digits, fmt_u32, framed_spec,
    source_view, string_bytes,
};

verus! {

/// One outbound datagram: a payload to send to every destination in
/// `dests`.  The I/O shell performs the sends; failures of a caller record
/// feed the reported result, while `warning` marks a governor-synthesized
/// warning line, whose send failures are not surfaced.
pub struct Datagram {
    pub payload: Vec<u8>,
    pub dests: Vec<SockAddr>,
    pub warning: bool,
}

/// Relies on chrono (`DateTime::<Local>::to_rfc3339`): renders the
/// wall-clock timestamp of `now_secs` seconds plus `now_nanos` nanoseconds
/// after the Unix epoch in the machine's local time zone.  The rendering
/// depends on that zone, so nothing is promised of the returned bytes.
#[verifier::external_body]
fn rfc3339_local(now_secs: u64, now_nanos: u32) -> (r: Vec<u8>) {
    match chrono::DateTime::from_timestamp(now_secs as i64, now_nanos) {
        Some(utc) => chrono::DateTime::<chrono::Local>::from(utc).to_rfc3339().into_bytes(),
        None => Vec::new(),
    }
}

/// The hour-boundary warning reporting records lost in the finished hour.
pub open spec fn lost_warning_spec(n: u32) -> Seq<u8> {
    "[WARN] Log threshold exceeded, lost ".spec_bytes() + dec_digits(n as nat)
        + " logs.".spec_bytes()
}

/// Builds the lost-records warning line body.
pub fn build_lost_warning(n: u32) -> (r: Vec<u8>)
    ensures
        r@ == lost_warning_spec(n),
{
    let mut buf: Vec<u8> = Vec::new();
    append_bytes(&mut buf, "[WARN] Log threshold exceeded, lost ".as_bytes());
    let digits = fmt_u32(n);
    append_bytes(&mut buf, digits.as_slice());
    append_bytes(&mut buf, " logs.".as_bytes());
    assert(buf@ =~= lost_warning_spec(n));
    buf
}

/// The warning announcing that the threshold is being reached this hour.
pub open spec fn reached_warning_spec(threshold: u32) -> Seq<u8> {
    "[WARN] Log threshold is exceeding, current config is ".spec_bytes() + dec_digits(
        threshold as nat,
    ) + ".".spec_bytes()
}

/// Builds the threshold-reached warning line body.
pub fn build_reached_warning(threshold: u32) -> (r: Vec<u8>)
    ensures
        r@ == reached_warning_spec(threshold),
{
    let mut buf: Vec<u8> = Vec::new();
    append_bytes(&mut buf, "[WARN] Log threshold is exceeding, current config is ".as_bytes());
    let digits = fmt_u32(threshold);
    append_bytes(&mut buf, digits.as_slice());
    append_bytes(&mut buf, ".".as_bytes());
    assert(buf@ =~= reached_warning_spec(threshold));
    buf
}

/// Copies an address list.
fn copy_addrs(v: &Vec<SockAddr>) -> (r: Vec<SockAddr>)
    ensures
        r@ == v@,
{
    let mut r: Vec<SockAddr> = Vec::new();
    let mut i: usize = 0;
    while i < v.len()
        invariant
            i <= v@.len(),
            r@ == v@.subrange(0, i as int),
        decreases v@.len() - i,
    {
        r.push(v[i]);
        assert(r@ =~= v@.subrange(0, i + 1));
        i = i + 1;
    }
    assert(v@.subrange(0, v@.len() as int) =~= v@);
    r
}

/// The writer that ships records to the configured remote collectors.
pub struct RemoteLogWriter {
    /// live configuration, shared with the reload path by the I/O shell
    pub config: RemoteLogConfig,
    /// stream tag written into every line
    pub tag: String,
    /// opaque caller-supplied prefix of every line
    pub header: Vec<u8>,
    /// the host process id written into every line
    pub pid: u32,
    /// hourly volume state
    pub governor: Governor,
}

/// `d` frames `msg` for writer `w` (up to the clock's timestamp rendering),
/// is addressed to exactly `dests`, and is marked a warning line or a
/// record line as `warning` says.
pub open spec fn datagram_is(
    d: Datagram,
    w: RemoteLogWriter,
    msg: Seq<u8>,
    dests: Seq<SockAddr>,
    warning: bool,
) -> bool {
    &&& d.dests@ == dests
    &&& d.warning == warning
    &&& exists|ts: Seq<u8>|
        d.payload@ == framed_spec(
            w.header@,
            ts,
            string_bytes(w.config.hostname),
            string_bytes(w.tag),
            w.pid,
            msg,
        )
}

/// The fields a record write never touches: everything but the resolver
/// cache and the governor's bookkeeping.
pub open spec fn same_identity(a: RemoteLogWriter, b: RemoteLogWriter) -> bool {
    &&& a.tag == b.tag
    &&& a.header == b.header
    &&& a.pid == b.pid
    &&& a.config.enabled == b.config.enabled
    &&& a.config.threshold == b.config.threshold
    &&& a.config.hostname == b.config.hostname
    &&& a.config.remotes == b.config.remotes
    &&& a.config.remote_port == b.config.remote_port
}

impl RemoteLogWriter {
    /// Builds the writer.  `tag` names the shipped stream; when it is empty
    /// the caller's program name is used instead, which the I/O shell passes
    /// in as `program_name` together with the process id `pid`.  `header` is
    /// the opaque prefix of every framed line.
    pub fn new(
        hostname: String,
        remotes: Vec<String>,
        port: u16,
        tag: String,
        header: Vec<u8>,
        program_name: String,
        pid: u32,
    ) -> (w: RemoteLogWriter)
        ensures
            w.config.enabled == false,
            w.config.threshold == 0,
            w.config.hostname == hostname,
            w.config.remotes == remotes,
            w.config.remote_port == port,
            w.config.remote_addrs@ =~= Seq::<SockAddr>::empty(),
            w.config.last_lookup == 0,
            w.tag@ == (if tag@.len() == 0 {
                program_name@
            } else {
                tag@
            }),
            w.header == header,
            w.pid == pid,
            w.governor.last_hour == 0,
            w.governor.count == 0,
    {
        let tag = if tag.as_str().is_empty() {
            program_name
        } else {
            tag
        };
        RemoteLogWriter {
            config: RemoteLogConfig::new(hostname, remotes, port),
            tag,
            header,
            pid,
            governor: Governor::new(),
        }
    }

    /// Frames `message` into one wire line addressed to every currently
    /// resolved collector, marked as a warning line when `warning` holds.
    /// The timestamp comes from the machine's clock rendering of the given
    /// instant, so the payload is pinned up to that choice.
    pub fn write_message(&self, now_secs: u64, now_nanos: u32, warning: bool, message: &Vec<u8>) -> (d: Datagram)
        ensures
            datagram_is(d, *self, message@, self.config.remote_addrs@, warning),
    {
        let ts = rfc3339_local(now_secs, now_nanos);
        let payload = build_line(
            &self.header,
            &ts,
            self.config.hostname.as_str(),
            self.tag.as_str(),
            self.pid,
            message,
        );
        let dests = copy_addrs(&self.config.remote_addrs);
        proof {
            let tsw = ts@;
            assert(payload@ == framed_spec(
                self.header@,
                tsw,
                string_bytes(self.config.hostname),
                string_bytes(self.tag),
                self.pid,
                message@,
            ));
        }
        Datagram { payload, dests, warning }
    }

    /// Interval-gated resolution of the configured remotes: at most one
    /// attempt runs per `DOMAIN_LOOKUP_INTERVAL`; an off-interval call
    /// leaves everything untouched and the cached set is reused.
    pub fn domain_name_lookup(&mut self, now_secs: u64)
        ensures
            same_identity(*final(self), *old(self)),
            final(self).governor == old(self).governor,
            !lookup_due(old(self).config.last_lookup, now_secs) ==> *final(self) == *old(self),
            lookup_due(old(self).config.last_lookup, now_secs) ==> final(self).config.last_lookup == now_secs && resolution_of(
                final(self).config.remote_addrs@,
                old(self).config.remotes@,
                old(self).config.remote_port,
            ),
    {
        if !lookup_due_exec(self.config.last_lookup, now_secs) {
            return ;
        }
        self.config.last_lookup = now_secs;
        let addrs = resolve_remotes(&self.config.remotes, self.config.remote_port);
        self.config.remote_addrs = addrs;
    }

    /// Per-record write path: if disabled, nothing; otherwise the governor
    /// judges the record, the two boundary warnings go out as their own
    /// lines to the pre-refresh address set, and a record that passes
    /// triggers the gated resolver refresh and is framed to the refreshed
    /// set.  The returned datagrams are in emission order; the I/O shell
    /// sends each payload to each of its destinations.
    pub fn write(
        &mut self,
        now_secs: u64,
        now_nanos: u32,
        level: Level,
        source: &Option<(String, u32)>,
        message: &str,
    ) -> (out: Vec<Datagram>)
        ensures
            same_identity(*final(self), *old(self)),
            !old(self).config.enabled ==> *final(self) == *old(self) && out@.len() == 0,
            old(self).config.enabled ==> ({
                let t = old(self).config.threshold;
                let m = check_model(old(self).governor, t, now_secs);
                let v = m.1;
                &&& final(self).governor == m.0
                &&& out@.len() == ((if v.lost is Some {
                    1int
                } else {
                    0int
                }) + (if v.reached {
                    1int
                } else {
                    0int
                }) + (if v.suppress {
                    0int
                } else {
                    1int
                }))
                &&& (v.lost matches Some(n) ==> datagram_is(
                    out@[0],
                    *old(self),
                    lost_warning_spec(n),
                    old(self).config.remote_addrs@,
                    true,
                ))
                &&& (v.reached ==> datagram_is(
                    out@[0],
                    *old(self),
                    reached_warning_spec(t),
                    old(self).config.remote_addrs@,
                    true,
                ))
                &&& (v.suppress ==> final(self).config.remote_addrs == old(self).config.remote_addrs && final(self).config.last_lookup == old(self).config.last_lookup)
                &&& (!v.suppress ==> {
                    &&& (!lookup_due(old(self).config.last_lookup, now_secs) ==> final(self).config.remote_addrs == old(self).config.remote_addrs && final(self).config.last_lookup == old(self).config.last_lookup)
                    &&& (lookup_due(old(self).config.last_lookup, now_secs) ==> final(self).config.last_lookup == now_secs && resolution_of(
                        final(self).config.remote_addrs@,
                        old(self).config.remotes@,
                        old(self).config.remote_port,
                    ))
                    &&& datagram_is(
                        out@[out@.len() - 1],
                        *old(self),
                        body_spec(level, source_view(*source), message.spec_bytes()),
                        final(self).config.remote_addrs@,
                        false,
                    )
                })
            }),
    {
        let mut out: Vec<Datagram> = Vec::new();
        if !self.config.enabled {
            return out;
        }
        let threshold = self.config.threshold;
        let v = self.governor.check(threshold, now_secs);
        match v.lost {
            Some(n) => {
                let msg = build_lost_warning(n);
                out.push(self.write_message(now_secs, now_nanos, true, &msg));
            },
            None => {},
        }
        if v.reached {
            let msg = build_reached_warning(threshold);
            out.push(self.write_message(now_secs, now_nanos, true, &msg));
        }
        if v.suppress {
            return out;
        }
        self.domain_name_lookup(now_secs);
        let body = build_body(level, source, message);
        out.push(self.write_message(now_secs, now_nanos, false, &body));
        out
    }

    /// Nothing is buffered; flushing is a no-op success.
    pub fn flush(&self) -> (r: Result<(), SendError>)
        ensures
            r == Ok::<(), SendError>(()),
    {
        Ok(())
    }
}

} // verus!
