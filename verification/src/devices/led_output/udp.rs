//! LEDs sent as UDP datagrams.

use vstd::prelude::*;

verus! {

/// Where a UDP sender sends.
#[derive(Debug)]
pub struct UDPSenderConfig {
    name: String,
    host: String,
    port: u16,
}

impl UDPSenderConfig {
    /// The name of the sender.
    pub closed spec fn spec_name(&self) -> Seq<char> {
        self.name@
    }

    /// The host sent to.
    pub closed spec fn spec_host(&self) -> Seq<char> {
        self.host@
    }

    /// The port sent to.
    pub closed spec fn spec_port(&self) -> u16 {
        self.port
    }

    /// The configuration of a sender.
    pub fn new(name: String, host: String, port: u16) -> (config: Self)
        ensures
            config.spec_name() == name@,
            config.spec_host() == host@,
            config.spec_port() == port,
    {
        UDPSenderConfig { name, host, port }
    }

    /// The name of the sender.
    pub fn name(&self) -> (name: &String)
        ensures
            name@ == self.spec_name(),
    {
        &self.name
    }

    /// The host sent to.
    pub fn host(&self) -> (host: &String)
        ensures
            host@ == self.spec_host(),
    {
        &self.host
    }

    /// The port sent to.
    pub fn port(&self) -> (port: u16)
        ensures
            port == self.spec_port(),
    {
        self.port
    }
}

impl Clone for UDPSenderConfig {
    fn clone(&self) -> (copy: Self)
        ensures
            copy.spec_name() == self.spec_name(),
            copy.spec_host() == self.spec_host(),
            copy.spec_port() == self.spec_port(),
    {
        UDPSenderConfig { name: self.name.clone(), host: self.host.clone(), port: self.port }
    }
}

} // verus!
