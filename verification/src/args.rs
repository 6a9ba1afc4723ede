//! The settings that the proxy is started with.

use vstd::prelude::*;
use vstd::string::StringExecFns;
use crate::dns::DNSServerKind;

verus! {

/// The settings of one run of the proxy.
#[derive(Debug)]
pub struct Args {
    /// The address to listen on.
    pub host: String,
    /// The port to listen on.
    pub port: u16,
    /// The DNS server to speak DNS over TLS to.
    pub dot_server: Option<String>,
    /// The DNS server to speak plain DNS over TCP to; where it is given it
    /// is used in place of `dot_server`.
    pub dns_tcp_server: Option<String>,
    /// The largest number of body bytes in one fragment of a handshake
    /// record.
    pub chunk_size: usize,
    /// Whether to log in detail.
    pub verbose: bool,
}

/// The settings as plain values.
pub struct ArgsView {
    pub host: Seq<char>,
    pub port: u16,
    pub dot_server: Option<Seq<char>>,
    pub dns_tcp_server: Option<Seq<char>>,
    pub chunk_size: usize,
    pub verbose: bool,
}

impl View for Args {
    type V = ArgsView;

    open spec fn view(&self) -> ArgsView {
        ArgsView {
            host: self.host@,
            port: self.port,
            dot_server: match self.dot_server {
                Some(s) => Some(s@),
                None => None,
            },
            dns_tcp_server: match self.dns_tcp_server {
                Some(s) => Some(s@),
                None => None,
            },
            chunk_size: self.chunk_size,
            verbose: self.verbose,
        }
    }
}

impl ArgsView {
    /// The DNS server that these settings choose: the plain one where it is
    /// given, else the one for DNS over TLS.
    pub open spec fn dns_server(self) -> (Seq<char>, DNSServerKind) {
        match self.dns_tcp_server {
            Some(server) => (server, DNSServerKind::TCP),
            None => (self.dot_server->0, DNSServerKind::TLS),
        }
    }
}

impl Default for Args {
    /// The settings of a run that was given none: listen on
    /// `127.0.0.1:8000`, resolve over TLS at `1.1.1.1`, fragments of 500
    /// bytes.
    fn default() -> (a: Args)
        ensures
            a@ == (ArgsView {
                host: "127.0.0.1"@,
                port: 8000,
                dot_server: Some("1.1.1.1"@),
                dns_tcp_server: None,
                chunk_size: 500,
                verbose: false,
            }),
    {
        Args {
            host: String::from_str("127.0.0.1"),
            port: 8000,
            dot_server: Some(String::from_str("1.1.1.1")),
            dns_tcp_server: None,
            chunk_size: 500,
            verbose: false,
        }
    }
}

impl Args {
    /// The DNS server to resolve with and the transport to reach it by.
    pub fn dns_server(&self) -> (r: (String, DNSServerKind))
        requires
            self.dot_server is Some,
        ensures
            (r.0@, r.1) == self@.dns_server(),
    {
        match &self.dns_tcp_server {
            Some(server) => (server.clone(), DNSServerKind::TCP),
            None => (self.dot_server.as_ref().unwrap().clone(), DNSServerKind::TLS),
        }
    }

    /// The level to log at: `debug` for a verbose run, else `info`.
    pub fn log_level(&self) -> (level: &'static str)
        ensures
            level@ == if self.verbose {
                "debug"@
            } else {
                "info"@
            },
    {
        if self.verbose {
            "debug"
        } else {
            "info"
        }
    }
}

} // verus!
