//! The upstream message-broker endpoint: a host that must be a
//! syntactically valid DNS domain or an IPv4 literal, and a port where 0
//! means "no port configured".

use crate::ipv4::{dec_digits, format_u16, is_ipv4_text, parse_ipv4};
use vstd::prelude::*;

verus! {

/// The verdict of `publicsuffix::Domain::has_valid_syntax` on a piece of
/// text; the syntax rules themselves live in that crate.
pub uninterp spec fn domain_syntax_ok(s: Seq<char>) -> bool;

/// Relies on publicsuffix::Domain::has_valid_syntax: whether the text is
/// a syntactically valid DNS domain. The verdict depends on the text
/// alone.
#[verifier::external_body]
fn domain_has_valid_syntax(host: &str) -> (r: bool)
    ensures
        r == domain_syntax_ok(host@),
{
    publicsuffix::Domain::has_valid_syntax(host)
}

/// A broker host is accepted when it is a well-formed domain or an IPv4
/// literal.
pub open spec fn valid_broker_host(s: Seq<char>) -> bool {
    domain_syntax_ok(s) || is_ipv4_text(s)
}

/// A validated broker endpoint; one that is stored always passed host
/// validation when it was built.
#[derive(Debug)]
pub struct Broker {
    host: String,
    port: u16,
}

impl Broker {
    pub closed spec fn host_spec(&self) -> Seq<char> {
        self.host@
    }

    pub closed spec fn port_spec(&self) -> u16 {
        self.port
    }

    pub open spec fn wf(&self) -> bool {
        valid_broker_host(self.host_spec())
    }

    /// Builds an endpoint after validating the host; an invalid host is
    /// rejected and never stored.
    pub fn new(host: String, port: u16) -> (r: Result<Broker, String>)
        ensures
            match r {
                Ok(b) => valid_broker_host(host@) && b.host_spec() == host@ && b.port_spec()
                    == port,
                Err(e) => !valid_broker_host(host@) && e@ == "host parse error"@,
            },
    {
        if domain_has_valid_syntax(host.as_str()) || parse_ipv4(host.as_str()).is_some() {
            Ok(Broker { host, port })
        } else {
            Err(String::from_str("host parse error"))
        }
    }

    pub fn host(&self) -> (h: &String)
        ensures
            h@ == self.host_spec(),
    {
        &self.host
    }

    pub fn port(&self) -> (p: u16)
        ensures
            p == self.port_spec(),
    {
        self.port
    }

    /// The endpoint as the status page shows it: `host` when no port is
    /// configured, else `host : port`.
    pub open spec fn display_spec(&self) -> Seq<char> {
        if self.port_spec() == 0 {
            self.host_spec()
        } else {
            self.host_spec() + " : "@ + dec_digits(self.port_spec() as int)
        }
    }

    pub fn display(&self) -> (s: String)
        ensures
            s@ == self.display_spec(),
    {
        if self.port == 0 {
            self.host.clone()
        } else {
            let mut s = self.host.clone();
            s.append(" : ");
            let p = format_u16(self.port);
            s.append(p.as_str());
            proof {
                assert(s@ =~= self.display_spec());
            }
            s
        }
    }
}

impl Clone for Broker {
    /// A clone is the same endpoint, validation verdict included.
    fn clone(&self) -> (r: Self)
        ensures
            r == *self,
    {
        Broker { host: self.host.clone(), port: self.port }
    }
}

} // verus!
