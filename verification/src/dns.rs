//! The public DNS services the resolver can use, and how it is set up for
//! each.
use vstd::prelude::*;

verus! {

/// A public DNS service, over HTTPS or plain DNS.
#[derive(Debug, Clone, Copy, PartialEq, Eq, Hash, Structural)]
pub enum Dns {
    GoogleDoh,
    CloudflareDoh,
    Quad9Doh,
    GoogleDns,
    CloudflareDns,
    Quad9Dns,
}

/// Who runs a DNS service.
#[derive(Debug, Clone, Copy, PartialEq, Eq, Hash, Structural)]
pub enum DnsProvider {
    Google,
    Cloudflare,
    Quad9,
}

/// How a resolver is set up: the service's name servers, reached over
/// HTTPS or plain DNS, looking up IPv4 addresses only, with a timeout.
#[derive(Debug, Clone, Copy, PartialEq, Eq, Structural)]
pub struct ResolverSettings {
    pub provider: DnsProvider,
    pub https: bool,
    pub ipv4_only: bool,
    pub timeout_secs: u64,
}

impl Dns {
    /// The seconds a lookup may take.
    pub const LOOKUP_TIMEOUT_SECS: u64 = 5;

    /// The service the resolver uses where none is given.
    pub fn default_service() -> (r: Dns)
        ensures
            r == Dns::GoogleDoh,
    {
        Dns::GoogleDoh
    }

    /// How the resolver for the service is set up.
    pub fn settings(&self) -> (r: ResolverSettings)
        ensures
            r.provider == match *self {
                Dns::GoogleDoh | Dns::GoogleDns => DnsProvider::Google,
                Dns::CloudflareDoh | Dns::CloudflareDns => DnsProvider::Cloudflare,
                Dns::Quad9Doh | Dns::Quad9Dns => DnsProvider::Quad9,
            },
            r.https == (*self == Dns::GoogleDoh || *self == Dns::CloudflareDoh || *self == Dns::Quad9Doh),
            r.ipv4_only,
            r.timeout_secs == 5,
    {
        let (provider, https) = match self {
            Dns::GoogleDoh => (DnsProvider::Google, true),
            Dns::CloudflareDoh => (DnsProvider::Cloudflare, true),
            Dns::Quad9Doh => (DnsProvider::Quad9, true),
            Dns::GoogleDns => (DnsProvider::Google, false),
            Dns::CloudflareDns => (DnsProvider::Cloudflare, false),
            Dns::Quad9Dns => (DnsProvider::Quad9, false),
        };
        ResolverSettings { provider, https, ipv4_only: true, timeout_secs: Self::LOOKUP_TIMEOUT_SECS }
    }
}

} // verus!
