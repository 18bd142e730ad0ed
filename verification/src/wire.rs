//! Wire-format framing: level labels, decimal rendering, and the single
//! text line that each delivered record becomes.

use vstd::prelude::*;
use vstd::string::StringSliceAdditionalSpecFns;

verus! {

// ASCII bytes used by the wire format.
pub const SPACE: u8 = 0x20;
pub const NEWLINE: u8 = 0x0a;
pub const COLON: u8 = 0x3a;
pub const LBRACKET: u8 = 0x5b;
pub const RBRACKET: u8 = 0x5d;
pub const DOT: u8 = 0x2e;
pub const DIGIT_ZERO: u8 = 0x30;
pub const DIGIT_NINE: u8 = 0x39;

/// Severity of a log record, mirroring the usual leveled-logging hierarchy.
#[derive(Clone, Copy, PartialEq, Eq, Structural, Debug)]
pub enum Level {
    Error,
    Warn,
    Info,
    Debug,
    Trace,
}

/// The decimal digits of `n`, most significant first, as ASCII bytes.
pub open spec fn dec_digits(n: nat) -> Seq<u8>
    decreases n,
{
    if n < 10 {
        seq![(n + 0x30) as u8]
    } else {
        dec_digits(n / 10) + seq![(n % 10 + 0x30) as u8]
    }
}

/// Renders `n` in decimal, as `dec_digits` describes.
pub fn fmt_u32(n: u32) -> (r: Vec<u8>)
    ensures
        r@ == dec_digits(n as nat),
    decreases n,
{
    if n < 10 {
        let mut v: Vec<u8> = Vec::new();
        v.push(DIGIT_ZERO + n as u8);
        assert(v@ =~= dec_digits(n as nat));
        v
    } else {
        let mut v = fmt_u32(n / 10);
        v.push(DIGIT_ZERO + (n % 10) as u8);
        assert(v@ =~= dec_digits(n as nat));
        v
    }
}

/// Appends every byte of `src` to `dst`.
pub fn append_bytes(dst: &mut Vec<u8>, src: &[u8])
    ensures
        final(dst)@ == old(dst)@ + src@,
{
    let mut i: usize = 0;
    assert(dst@ =~= old(dst)@ + src@.subrange(0, 0));
    while i < src.len()
        invariant
            i <= src@.len(),
            dst@ == old(dst)@ + src@.subrange(0, i as int),
        decreases src@.len() - i,
    {
        dst.push(src[i]);
        assert(dst@ =~= old(dst)@ + src@.subrange(0, i + 1));
        i = i + 1;
    }
    assert(old(dst)@ + src@.subrange(0, i as int) =~= old(dst)@ + src@);
}

/// The label each level is printed with.
pub open spec fn level_label_spec(l: Level) -> Seq<u8> {
    match l {
        Level::Error => seq![0x45u8, 0x52u8, 0x52u8, 0x4fu8, 0x52u8],  // ERROR
        Level::Warn => seq![0x57u8, 0x41u8, 0x52u8, 0x4eu8],  // WARN
        Level::Info => seq![0x49u8, 0x4eu8, 0x46u8, 0x4fu8],  // INFO
        Level::Debug => seq![0x44u8, 0x45u8, 0x42u8, 0x55u8, 0x47u8],  // DEBUG
        Level::Trace => seq![0x54u8, 0x52u8, 0x41u8, 0x43u8, 0x45u8],  // TRACE
    }
}

/// Writes the label of `l` into a fresh byte vector.
pub fn level_label(l: Level) -> (r: Vec<u8>)
    ensures
        r@ == level_label_spec(l),
{
    let mut v: Vec<u8> = Vec::new();
    match l {
        Level::Error => {
            v.push(0x45);
            v.push(0x52);
            v.push(0x52);
            v.push(0x4f);
            v.push(0x52);
        },
        Level::Warn => {
            v.push(0x57);
            v.push(0x41);
            v.push(0x52);
            v.push(0x4e);
        },
        Level::Info => {
            v.push(0x49);
            v.push(0x4e);
            v.push(0x46);
            v.push(0x4f);
        },
        Level::Debug => {
            v.push(0x44);
            v.push(0x45);
            v.push(0x42);
            v.push(0x55);
            v.push(0x47);
        },
        Level::Trace => {
            v.push(0x54);
            v.push(0x52);
            v.push(0x41);
            v.push(0x43);
            v.push(0x45);
        },
    }
    assert(v@ =~= level_label_spec(l));
    v
}

/// The UTF-8 bytes of a string, as they leave `str::as_bytes`.
pub open spec fn string_bytes(s: String) -> Seq<u8> {
    vstd::utf8::encode_utf8(s@)
}

/// The byte view of an optional `file`/`line` source location.
pub open spec fn source_view(src: Option<(String, u32)>) -> Option<(Seq<u8>, u32)> {
    match src {
        Some((file, line)) => Some((string_bytes(file), line)),
        None => None,
    }
}

/// The body of a delivered record: `[LEVEL] message`, with `file:line `
/// inserted before the message when a source location is known.
pub open spec fn body_spec(level: Level, src: Option<(Seq<u8>, u32)>, msg: Seq<u8>) -> Seq<u8> {
    let head = seq![LBRACKET] + level_label_spec(level) + seq![RBRACKET, SPACE];
    match src {
        Some((file, line)) => head + file + seq![COLON] + dec_digits(line as nat) + seq![SPACE]
            + msg,
        None => head + msg,
    }
}

/// Builds the record body, as `body_spec` describes.
pub fn build_body(level: Level, source: &Option<(String, u32)>, message: &str) -> (r: Vec<u8>)
    ensures
        r@ == body_spec(level, source_view(*source), message.spec_bytes()),
{
    let mut buf: Vec<u8> = Vec::new();
    buf.push(LBRACKET);
    let label = level_label(level);
    append_bytes(&mut buf, label.as_slice());
    buf.push(RBRACKET);
    buf.push(SPACE);
    match source {
        Some(fl) => {
            append_bytes(&mut buf, fl.0.as_str().as_bytes());
            buf.push(COLON);
            let line_digits = fmt_u32(fl.1);
            append_bytes(&mut buf, line_digits.as_slice());
            buf.push(SPACE);
        },
        None => {},
    }
    append_bytes(&mut buf, message.as_bytes());
    assert(buf@ =~= body_spec(level, source_view(*source), message.spec_bytes()));
    buf
}

/// One framed wire line:
/// `header ++ timestamp ++ ' ' ++ hostname ++ ' ' ++ tag '[' pid ']' ': ' ++ message`,
/// with a newline appended only when the message does not already end in one.
pub open spec fn framed_spec(
    header: Seq<u8>,
    timestamp: Seq<u8>,
    hostname: Seq<u8>,
    tag: Seq<u8>,
    pid: u32,
    msg: Seq<u8>,
) -> Seq<u8> {
    let base = header + timestamp + seq![SPACE] + hostname + seq![SPACE] + tag + seq![LBRACKET]
        + dec_digits(pid as nat) + seq![RBRACKET, COLON, SPACE] + msg;
    if base.last() == NEWLINE {
        base
    } else {
        base + seq![NEWLINE]
    }
}

/// Framing law: every framed wire line is non-empty and ends in exactly the
/// newline rule demands — a final newline, appended only when the message
/// did not already bring one.
pub proof fn lemma_framed_line_ends_newline(
    header: Seq<u8>,
    timestamp: Seq<u8>,
    hostname: Seq<u8>,
    tag: Seq<u8>,
    pid: u32,
    msg: Seq<u8>,
)
    ensures
        framed_spec(header, timestamp, hostname, tag, pid, msg).len() > 0,
        framed_spec(header, timestamp, hostname, tag, pid, msg).last() == NEWLINE,
{
    let base = header + timestamp + seq![SPACE] + hostname + seq![SPACE] + tag + seq![LBRACKET]
        + dec_digits(pid as nat) + seq![RBRACKET, COLON, SPACE] + msg;
    if base.last() != NEWLINE {
        assert(framed_spec(header, timestamp, hostname, tag, pid, msg) == base + seq![NEWLINE]);
        assert((base + seq![NEWLINE]).last() == NEWLINE);
    }
}

/// Builds the framed wire line, as `framed_spec` describes.
pub fn build_line(
    header: &Vec<u8>,
    timestamp: &Vec<u8>,
    hostname: &str,
    tag: &str,
    pid: u32,
    message: &Vec<u8>,
) -> (r: Vec<u8>)
    ensures
        r@ == framed_spec(
            header@,
            timestamp@,
            hostname.spec_bytes(),
            tag.spec_bytes(),
            pid,
            message@,
        ),
{
    let mut buf: Vec<u8> = Vec::new();
    append_bytes(&mut buf, header.as_slice());
    append_bytes(&mut buf, timestamp.as_slice());
    buf.push(SPACE);
    append_bytes(&mut buf, hostname.as_bytes());
    buf.push(SPACE);
    append_bytes(&mut buf, tag.as_bytes());
    buf.push(LBRACKET);
    let pid_digits = fmt_u32(pid);
    append_bytes(&mut buf, pid_digits.as_slice());
    buf.push(RBRACKET);
    buf.push(COLON);
    buf.push(SPACE);
    append_bytes(&mut buf, message.as_slice());
    let ghost base = header@ + timestamp@ + seq![SPACE] + hostname.spec_bytes() + seq![SPACE]
        + tag.spec_bytes() + seq![LBRACKET] + dec_digits(pid as nat)
        + seq![RBRACKET, COLON, SPACE] + message@;
    assert(buf@ =~= base);
    if buf[buf.len() - 1] != NEWLINE {
        buf.push(NEWLINE);
        assert(buf@ =~= base + seq![NEWLINE]);
    }
    buf
}

} // verus!
