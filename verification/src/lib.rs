//! Best-effort remote log shipping.
//!
//! Every log record handed to the remote writer is framed as a single text
//! line and forwarded as one UDP datagram to each configured collector,
//! subject to an hourly volume governor and an interval-gated address
//! resolver.  A passive level-counting sink and a fan-out combinator round
//! out the library.  The verified core works on plain values; the I/O shell
//! around it performs the actual sends.

pub mod addr;
pub mod config;
pub mod counter;
pub mod governor;
pub mod resolve;
pub mod sink;
pub mod wire;
pub mod writer;
