//! Upstream servers: their configuration and their published score.

use vstd::prelude::*;
use crate::socks5::SocketAddress;

verus! {

/// Where an upstream server is reached.
#[derive(Debug, Clone, PartialEq, Eq)]
pub enum ServerAddr {
    /// At a socket address.
    SocketAddr(SocketAddress),
    /// At a host name, to be resolved, and a port.
    DomainName(String, u16),
}

/// What is configured of one upstream server.
#[derive(Debug, Clone, PartialEq, Eq)]
pub struct ServerConfig {
    /// Where the server is reached.
    pub addr: ServerAddr,
    /// Name of the cipher that the server speaks.
    pub method: String,
    /// Key for that cipher.
    pub key: Vec<u8>,
}

/// What a balancer probes servers with.
#[derive(Debug, Clone, Copy, PartialEq, Eq)]
pub enum ServerType {
    Tcp,
    Udp,
}

/// A server that a balancer can choose among others.
pub trait Server: Send + Sync {
    /// The configuration, which never changes.
    spec fn spec_config(&self) -> ServerConfig;

    /// The score as it was last stored.
    spec fn spec_score(&self) -> u64;

    /// Get the server's config
    fn server_config(&self) -> (r: &ServerConfig)
        ensures
            *r == self.spec_config(),
    ;

    /// Read the score of this server
    fn score(&self) -> (r: u64)
        ensures
            r == self.spec_score(),
    ;

    /// Store the score of this server
    fn set_score(&mut self, score: u64)
        ensures
            final(self).spec_score() == score,
            final(self).spec_config() == old(self).spec_config(),
    ;
}

/// An upstream server together with its score.
pub struct ServerScore {
    svr_cfg: ServerConfig,
    score: u64,
}

impl ServerScore {
    /// A record for `config` with the score zero.
    pub fn new(config: ServerConfig) -> (r: ServerScore)
        ensures
            r.spec_config() == config,
            r.spec_score() == 0,
    {
        ServerScore { svr_cfg: config, score: 0 }
    }
}

impl Server for ServerScore {
    closed spec fn spec_config(&self) -> ServerConfig {
        self.svr_cfg
    }

    closed spec fn spec_score(&self) -> u64 {
        self.score
    }

    fn server_config(&self) -> (r: &ServerConfig) {
        &self.svr_cfg
    }

    fn score(&self) -> (r: u64) {
        self.score
    }

    fn set_score(&mut self, score: u64) {
        self.score = score;
    }
}

} // verus!
