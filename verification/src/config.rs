//! The live configuration of the remote writer, as one plain value.  The
//! concurrent shell around the library keeps it behind its own
//! synchronization and calls the setters from the configuration-reload
//! path; each setter replaces its field as a whole.

use vstd::prelude::*;
use crate::addr::SockAddr;

verus! {

pub struct RemoteLogConfig {
    /// remote delivery switch
    pub enabled: bool,
    /// hourly record threshold; 0 disables the governor
    pub threshold: u32,
    /// the local host name written into every framed line
    pub hostname: String,
    /// remote collectors: host names or IPv4 literals
    pub remotes: Vec<String>,
    /// the port every collector is addressed on
    pub remote_port: u16,
    /// cache of the last resolution, replaced only as a whole
    pub remote_addrs: Vec<SockAddr>,
    /// seconds-since-epoch of the last resolution attempt that ran
    pub last_lookup: u64,
}

impl RemoteLogConfig {
    /// A fresh configuration: delivery disabled, governor disabled, nothing
    /// resolved yet.
    pub fn new(hostname: String, remotes: Vec<String>, remote_port: u16) -> (c: RemoteLogConfig)
        ensures
            c.enabled == false,
            c.threshold == 0,
            c.hostname == hostname,
            c.remotes == remotes,
            c.remote_port == remote_port,
            c.remote_addrs@ =~= Seq::<SockAddr>::empty(),
            c.last_lookup == 0,
    {
        RemoteLogConfig {
            enabled: false,
            threshold: 0,
            hostname,
            remotes,
            remote_port,
            remote_addrs: Vec::new(),
            last_lookup: 0,
        }
    }

    /// Switches remote delivery on or off; nothing else moves.
    pub fn set_enabled(&mut self, enabled: bool)
        ensures
            *final(self) == (RemoteLogConfig { enabled, ..*old(self) }),
    {
        self.enabled = enabled;
    }

    /// Replaces the hourly threshold; 0 disables the governor.
    pub fn set_threshold(&mut self, threshold: u32)
        ensures
            *final(self) == (RemoteLogConfig { threshold, ..*old(self) }),
    {
        self.threshold = threshold;
    }

    /// Replaces the local host name, as a whole.
    pub fn set_hostname(&mut self, hostname: String)
        ensures
            *final(self) == (RemoteLogConfig { hostname, ..*old(self) }),
    {
        self.hostname = hostname;
    }

    /// Replaces the remote list and the port together.  The cached address
    /// set is left standing but the next resolution recomputes it from the
    /// new list alone; nothing of the old list survives into it.
    pub fn set_remotes(&mut self, addrs: Vec<String>, port: u16)
        ensures
            *final(self) == (RemoteLogConfig {
                remotes: addrs,
                remote_port: port,
                ..*old(self)
            }),
    {
        self.remotes = addrs;
        self.remote_port = port;
    }
}

} // verus!
