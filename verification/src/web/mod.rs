//! The web service: the answer format of its interface, where its static
//! files are, and the choice of its port.

pub mod api;

use vstd::prelude::*;
use vstd::string::*;
use crate::config::Config;
use crate::text::owned;

verus! {

/// The answer of every request of the interface.
#[derive(Debug)]
pub struct ResParams<T> {
    pub success: bool,
    pub msg: String,
    pub data: Option<T>,
}

impl<T> ResParams<T> {
    /// A successful answer with data and the message `ok`.
    pub fn ok(data: T) -> (r: ResParams<T>)
        ensures
            r.success,
            r.msg@ == "ok"@,
            r.data == Some(data),
    {
        ResParams { success: true, data: Some(data), msg: owned("ok") }
    }

    /// A failed answer with a message and no data.
    pub fn err(msg: String) -> (r: ResParams<T>)
        ensures
            !r.success,
            r.msg == msg,
            r.data is None,
    {
        ResParams { success: false, data: None, msg }
    }
}

/// The directory whose files the web service serves: the configured
/// `web.static_dir`.
pub fn static_file_path(config: &Config) -> (r: String)
    ensures
        r@ == config.web.static_dir@,
{
    config.web.static_dir.clone()
}

/// How many ports are tried.
pub const PORT_TRIES: u16 = 20;

/// The search for a free port from a configured one: the port to try next,
/// after `tries` taken ones.
#[derive(Debug, Clone, Copy, PartialEq, Eq)]
pub struct PortSearch {
    pub start: u16,
    pub port: u16,
    pub tries: u16,
}

/// The outcome of trying one port.
#[derive(Debug, Clone, Copy, PartialEq, Eq)]
pub enum PortProbe {
    /// The port was reported free: serve on it.
    Free(u16),
    /// The port was taken: try the next one.
    TryNext,
    /// The port was taken and it was the 20th one tried: the search ends on
    /// the port after it, which is not tried (the service then binds it and
    /// fails if it is taken too).
    AllTaken(u16),
}

impl PortSearch {
    /// The search's invariant: the port is the first one plus the ports tried,
    /// fewer than 20 of them.
    pub open spec fn wf(self) -> bool {
        self.tries < PORT_TRIES && self.port == self.start + self.tries
    }

    /// A search that starts at the configured port.
    pub fn new(start: u16) -> (r: PortSearch)
        ensures
            r.wf(),
            r.start == start,
            r.port == start,
            r.tries == 0,
    {
        PortSearch { start, port: start, tries: 0 }
    }

    /// The step after trying `self.port`, which was reported `free` or not: a
    /// free port is the answer; after a taken one the next port is tried;
    /// after 20 taken ports the search ends on the next port, untried.
    /// Past port 65535 there is no next port: a taken 65535 is left out.
    pub fn next(&mut self, free: bool) -> (r: PortProbe)
        requires
            old(self).wf(),
            !free ==> old(self).port < u16::MAX,
        ensures
            r matches PortProbe::Free(p) ==> free && p == old(self).port,
            free ==> r == PortProbe::Free(old(self).port) && *final(self) == *old(self),
            !free && old(self).tries + 1 == PORT_TRIES ==> r == PortProbe::AllTaken((old(self).port + 1) as u16),
            !free && old(self).tries + 1 < PORT_TRIES ==> {
                &&& r == PortProbe::TryNext
                &&& final(self).wf()
                &&& final(self).start == old(self).start
                &&& final(self).port == old(self).port + 1
                &&& final(self).tries == old(self).tries + 1
            },
    {
        if free {
            return PortProbe::Free(self.port);
        }
        if self.tries + 1 == PORT_TRIES {
            return PortProbe::AllTaken(self.port + 1);
        }
        self.port = self.port + 1;
        self.tries = self.tries + 1;
        PortProbe::TryNext
    }
}

/// Every port that the search tries lies among the 20 from the configured
/// one on, and it has tried and found taken all the ports before it; so an
/// untried port where it ends is 20 past the configured one.
pub proof fn lemma_port_range(s: PortSearch)
    requires
        s.wf(),
    ensures
        s.start <= s.port < s.start + PORT_TRIES,
        s.port - s.start == s.tries,
{
}

} // verus!
