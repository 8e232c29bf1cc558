//! The shared link configuration: the connection state the worker obeys,
//! and the port name and baud rate it opens with.  The consumer mutates it
//! through the actions below; the worker reads it once per poll tick.

use vstd::prelude::*;

verus! {

/// The four connection states: no connection desired, idling between
/// long waits, actively reading, and connect-in-progress.
#[derive(Debug, Clone, Copy, PartialEq, Eq, Structural)]
pub enum LinkState {
    Stopped,
    Sleeping,
    Active,
    Reconfiguring,
}

/// The link configuration shared between consumer and worker.
pub struct Config {
    pub state: LinkState,
    pub baud_rate: u32,
    pub port_name: Vec<u8>,
}

impl Config {
    /// A fresh configuration: stopped, 9600 baud, no port chosen.
    pub fn new() -> (r: Config)
        ensures
            r.state == LinkState::Stopped,
            r.baud_rate == 9600,
            r.port_name@ == Seq::<u8>::empty(),
    {
        let c = Config { state: LinkState::Stopped, baud_rate: 9600, port_name: Vec::new() };
        proof {
            assert(c.port_name@ =~= Seq::<u8>::empty());
        }
        c
    }

    /// The user asks for a (re)connect: the worker will open the
    /// configured port on its next tick.
    pub fn activate(&mut self)
        ensures
            final(self).state == LinkState::Reconfiguring,
            final(self).baud_rate == old(self).baud_rate,
            final(self).port_name@ == old(self).port_name@,
    {
        self.state = LinkState::Reconfiguring;
    }

    /// The user asks to stop: the worker will drop any open handle on its
    /// next tick.
    pub fn stop(&mut self)
        ensures
            final(self).state == LinkState::Stopped,
            final(self).baud_rate == old(self).baud_rate,
            final(self).port_name@ == old(self).port_name@,
    {
        self.state = LinkState::Stopped;
    }

    /// Select the device to open.
    pub fn set_port(&mut self, name: Vec<u8>)
        ensures
            final(self).port_name@ == name@,
            final(self).state == old(self).state,
            final(self).baud_rate == old(self).baud_rate,
    {
        self.port_name = name;
    }

    /// Select the baud rate to open with.
    pub fn set_baud(&mut self, baud: u32)
        ensures
            final(self).baud_rate == baud,
            final(self).state == old(self).state,
            final(self).port_name@ == old(self).port_name@,
    {
        self.baud_rate = baud;
    }
}

} // verus!
