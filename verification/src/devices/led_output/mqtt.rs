//! LEDs sent as MQTT messages.

use vstd::prelude::*;

verus! {

/// Where and how an MQTT sender publishes.
#[derive(Debug)]
pub struct MQTTSenderConfig {
    name: String,
    host: String,
    port: u16,
    topic: String,
    credentials: Option<(String, String)>,
}

impl MQTTSenderConfig {
    /// The name of the sender.
    pub closed spec fn spec_name(&self) -> Seq<char> {
        self.name@
    }

    /// The broker's host.
    pub closed spec fn spec_host(&self) -> Seq<char> {
        self.host@
    }

    /// The broker's port.
    pub closed spec fn spec_port(&self) -> u16 {
        self.port
    }

    /// The topic published to.
    pub closed spec fn spec_topic(&self) -> Seq<char> {
        self.topic@
    }

    /// User name and password, if the broker asks for them.
    pub closed spec fn spec_credentials(&self) -> Option<(Seq<char>, Seq<char>)> {
        match self.credentials {
            Some(pair) => Some((pair.0@, pair.1@)),
            None => None,
        }
    }

    /// The configuration of a sender.
    pub fn new(
        name: String,
        host: String,
        port: u16,
        topic: String,
        credentials: Option<(String, String)>,
    ) -> (config: Self)
        ensures
            config.spec_name() == name@,
            config.spec_host() == host@,
            config.spec_port() == port,
            config.spec_topic() == topic@,
            config.spec_credentials() == match credentials {
                Some(pair) => Some((pair.0@, pair.1@)),
                None => None,
            },
    {
        MQTTSenderConfig { name, host, port, topic, credentials }
    }

    /// The name of the sender.
    pub fn name(&self) -> (name: &String)
        ensures
            name@ == self.spec_name(),
    {
        &self.name
    }

    /// The broker's host.
    pub fn host(&self) -> (host: &String)
        ensures
            host@ == self.spec_host(),
    {
        &self.host
    }

    /// The broker's port.
    pub fn port(&self) -> (port: u16)
        ensures
            port == self.spec_port(),
    {
        self.port
    }

    /// The topic published to.
    pub fn topic(&self) -> (topic: &String)
        ensures
            topic@ == self.spec_topic(),
    {
        &self.topic
    }

    /// User name and password, if the broker asks for them.
    pub fn credentials(&self) -> (credentials: &Option<(String, String)>)
        ensures
            self.spec_credentials() == match *credentials {
                Some(pair) => Some((pair.0@, pair.1@)),
                None => None,
            },
    {
        &self.credentials
    }
}

impl Clone for MQTTSenderConfig {
    fn clone(&self) -> (copy: Self)
        ensures
            copy.spec_name() == self.spec_name(),
            copy.spec_host() == self.spec_host(),
            copy.spec_port() == self.spec_port(),
            copy.spec_topic() == self.spec_topic(),
            copy.spec_credentials() == self.spec_credentials(),
    {
        MQTTSenderConfig {
            name: self.name.clone(),
            host: self.host.clone(),
            port: self.port,
            topic: self.topic.clone(),
            credentials: match &self.credentials {
                Some(pair) => Some((pair.0.clone(), pair.1.clone())),
                None => None,
            },
        }
    }
}

} // verus!
