//! TCP handshake timing: how long it takes to *open* a connection, not to use one.
//!
//! A handshake several times slower than the ICMP RTT to the same host is the classic
//! signature of a loaded or filtered path, and ping alone cannot see it.

use vstd::prelude::*;

use crate::metrics::Sample;
use crate::units::Reading;

verus! {

/// Times TCP handshakes to a set of `host:port` endpoints.
pub struct TcpProbe {
    /// `(label, host:port)` pairs. The label is what the panel and the incident log show.
    pub endpoints: Vec<(String, String)>,
    /// How long a connection may take to open, in milliseconds.
    pub timeout_ms: u64,
}

/// The labels and addresses of a list of endpoints.
pub open spec fn endpoint_texts(v: Seq<(String, String)>) -> Seq<(Seq<char>, Seq<char>)> {
    Seq::new(v.len(), |i: int| (v[i].0@, v[i].1@))
}

impl TcpProbe {
    pub fn new(endpoints: Vec<(String, String)>, timeout_ms: u64) -> (p: TcpProbe)
        ensures
            p.endpoints == endpoints,
            p.timeout_ms == timeout_ms,
    {
        TcpProbe { endpoints, timeout_ms }
    }

    /// Well-known hosts on :443, chosen to sit on different networks so one operator having
    /// a bad day doesn't read as "TCP is broken".
    pub fn default_endpoints() -> (v: Vec<(String, String)>)
        ensures
            endpoint_texts(v@) == seq![
                ("cloudflare"@, "1.1.1.1:443"@),
                ("google"@, "8.8.8.8:443"@),
            ],
    {
        let mut v: Vec<(String, String)> = Vec::new();
        v.push(("cloudflare".to_owned(), "1.1.1.1:443".to_owned()));
        v.push(("google".to_owned(), "8.8.8.8:443".to_owned()));
        assert(endpoint_texts(v@) =~= seq![
            ("cloudflare"@, "1.1.1.1:443"@),
            ("google"@, "8.8.8.8:443"@),
        ]);
        v
    }

    /// One reading per endpoint, in their order, whether or not it opened: `timings` holds
    /// what each connection attempt took.
    pub fn samples(&self, timings: &Vec<Option<Reading>>) -> (v: Vec<Sample>)
        requires
            timings@.len() == self.endpoints@.len(),
        ensures
            v@.len() == self.endpoints@.len(),
            forall|i: int|
                0 <= i < v@.len() ==> ((#[trigger] v@[i]) matches Sample::TcpHandshake {
                    endpoint,
                    connect_ms,
                } && endpoint@ == self.endpoints@[i].0@ && connect_ms == timings@[i]),
    {
        let mut v: Vec<Sample> = Vec::new();
        for i in 0..self.endpoints.len()
            invariant
                timings@.len() == self.endpoints@.len(),
                v@.len() == i,
                forall|j: int|
                    0 <= j < i ==> ((#[trigger] v@[j]) matches Sample::TcpHandshake {
                        endpoint,
                        connect_ms,
                    } && endpoint@ == self.endpoints@[j].0@ && connect_ms == timings@[j]),
        {
            v.push(
                Sample::TcpHandshake {
                    endpoint: self.endpoints[i].0.clone(),
                    connect_ms: timings[i],
                },
            );
        }
        v
    }
}

} // verus!
