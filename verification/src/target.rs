//! A network endpoint to probe: a host name or address and a TCP port.

use vstd::prelude::*;

verus! {

/// The mathematical value of a [`Target`]: the host as a sequence of
/// characters and the port number.
pub struct TargetView {
    pub host: Seq<char>,
    pub port: u16,
}

/// A network endpoint identified by a host (a literal address or a name
/// to be resolved) and a TCP port. A target is immutable once
/// constructed; its identity is the (host, port) pair. Valid ports are
/// 1 through 65535.
#[derive(Debug, PartialEq, Eq)]
pub struct Target {
    host: String,
    port: u16,
}

impl View for Target {
    type V = TargetView;

    closed spec fn view(&self) -> TargetView {
        TargetView { host: self.host@, port: self.port }
    }
}

/// The validity invariant of a target value: the port is non-zero.
/// (The upper bound of 65535 is carried by the port's type.)
pub open spec fn target_wf(t: TargetView) -> bool {
    t.port >= 1
}

impl Target {
    /// Constructs a target from an owned host string and a port.
    pub fn new(host: String, port: u16) -> (t: Target)
        requires
            port >= 1,
        ensures
            t@.host == host@,
            t@.port == port,
            target_wf(t@),
    {
        Target { host, port }
    }

    /// The host this target points at.
    pub fn host(&self) -> (h: &String)
        ensures
            h@ == self@.host,
    {
        &self.host
    }

    /// The port this target points at.
    pub fn port(&self) -> (p: u16)
        ensures
            p == self@.port,
    {
        self.port
    }

    /// Produces an identical copy of this target.
    pub fn duplicate(&self) -> (t: Target)
        ensures
            t@ == self@,
    {
        Target { host: self.host.clone(), port: self.port }
    }

    /// Whether two targets identify the same endpoint: equal hosts and
    /// equal ports.
    pub fn same_endpoint(&self, other: &Target) -> (r: bool)
        ensures
            r == (self@ == other@),
    {
        let r = self.host == other.host && self.port == other.port;
        proof {
            if self@.host == other@.host && self@.port == other@.port {
                assert(self@ == other@);
            }
        }
        r
    }
}

} // verus!
