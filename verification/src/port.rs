//! The port resource as the gateway reads it: its identity, its declared
//! network, version and tier, and the status that the operator writes back.

use vstd::prelude::*;
use vstd::string::*;
use crate::hostname::{
    decode, has_key_prefix, hostname, lemma_host_round_trip, lemma_plain_name_reads_without_key,
    no_newline, HostView,
};
use crate::text::{all_label, decimal, decimal_string, lemma_decimal_digits};

verus! {

/// The networks a port can be declared on.
#[derive(Debug, Clone, Copy, PartialEq, Eq, Structural)]
pub enum Network {
    Mainnet,
    Preprod,
    Preview,
    Sanchonet,
}

/// The lower-case name of a network.
pub open spec fn network_name(network: Network) -> Seq<char> {
    match network {
        Network::Mainnet => "mainnet"@,
        Network::Preprod => "preprod"@,
        Network::Preview => "preview"@,
        Network::Sanchonet => "sanchonet"@,
    }
}

impl Network {
    /// The lower-case name of the network.
    pub fn as_str(&self) -> (r: &'static str)
        ensures
            r@ == network_name(*self),
    {
        match self {
            Network::Mainnet => "mainnet",
            Network::Preprod => "preprod",
            Network::Preview => "preview",
            Network::Sanchonet => "sanchonet",
        }
    }

    /// The lower-case name of the network, owned.
    pub fn to_string(&self) -> (r: String)
        ensures
            r@ == network_name(*self),
    {
        String::from_str(self.as_str())
    }

    /// The network of a lower-case name, if it names one.
    pub fn from_name(name: &str) -> (r: Option<Network>)
        ensures
            match r {
                Some(n) => network_name(n) == name@,
                None => forall|n: Network| network_name(n) != name@,
            },
    {
        let owned: String = String::from_str(name);
        if owned == Network::Mainnet.to_string() {
            Some(Network::Mainnet)
        } else if owned == Network::Preprod.to_string() {
            Some(Network::Preprod)
        } else if owned == Network::Preview.to_string() {
            Some(Network::Preview)
        } else if owned == Network::Sanchonet.to_string() {
            Some(Network::Sanchonet)
        } else {
            None
        }
    }
}

/// A network name is a non-empty run of lower-case letters that does not
/// begin like a key.
pub proof fn lemma_network_name(network: Network)
    ensures
        network_name(network).len() > 0,
        all_label(network_name(network), 0, network_name(network).len() as int),
        !has_key_prefix(network_name(network)),
{
    reveal_strlit("mainnet");
    reveal_strlit("preprod");
    reveal_strlit("preview");
    reveal_strlit("sanchonet");
    let s = network_name(network);
    if has_key_prefix(s) {
        assert(s.subrange(0, 5)[0] == 'd');
    }
}

/// What a port declares.
#[derive(Debug, Clone)]
pub struct OgmiosPortSpec {
    pub network: Network,
    pub version: u8,
    pub throughput_tier: String,
}

/// What the operator reports of a reconciled port.
#[derive(Debug, Clone)]
pub struct OgmiosPortStatus {
    pub endpoint_url: String,
    pub authenticated_endpoint_url: String,
    pub auth_token: String,
}

impl Default for OgmiosPortStatus {
    /// The status of a port that is not reconciled yet: every field empty.
    fn default() -> (r: Self)
        ensures
            r.endpoint_url@ == Seq::<char>::empty(),
            r.authenticated_endpoint_url@ == Seq::<char>::empty(),
            r.auth_token@ == Seq::<char>::empty(),
    {
        OgmiosPortStatus {
            endpoint_url: String::new(),
            authenticated_endpoint_url: String::new(),
            auth_token: String::new(),
        }
    }
}

/// A port resource: identity, declaration and, once reconciled, status.
#[derive(Debug, Clone)]
pub struct Port {
    pub namespace: String,
    pub name: String,
    pub uid: String,
    pub spec: OgmiosPortSpec,
    pub status: Option<OgmiosPortStatus>,
}

/// `v` and the decimal numeral of a version.
pub open spec fn version_label(version: u8) -> Seq<char> {
    seq!['v'] + decimal(version as nat)
}

/// The hostname of a network and version under an extension and a zone:
/// `{network}-v{version}.{extension_name}.{dns_zone}`, with `{key}.` in
/// front where a key is given.
pub open spec fn port_hostname(
    network: Network,
    version: u8,
    key: Option<Seq<char>>,
    extension_name: Seq<char>,
    dns_zone: Seq<char>,
) -> Seq<char> {
    hostname(network_name(network), version_label(version), key, extension_name, dns_zone)
}

/// Builds the two hostnames of a port: the plain one and the one that
/// carries the key as its first label.
pub fn build_hostname(
    network: &Network,
    version: u8,
    key: &str,
    extension_name: &str,
    dns_zone: &str,
) -> (r: (String, String))
    ensures
        r.0@ == port_hostname(*network, version, None, extension_name@, dns_zone@),
        r.1@ == port_hostname(*network, version, Some(key@), extension_name@, dns_zone@),
{
    proof {
        reveal_strlit("v");
    }
    let mut label: String = String::from_str("v");
    let digits: String = decimal_string(version as u64);
    label.append(digits.as_str());
    assert(label@ =~= version_label(version));
    let plain: String = crate::hostname::build_hostname(
        network.as_str(),
        label.as_str(),
        None,
        extension_name,
        dns_zone,
    );
    let keyed: String = crate::hostname::build_hostname(
        network.as_str(),
        label.as_str(),
        Some(key),
        extension_name,
        dns_zone,
    );
    (plain, keyed)
}

/// `https://` in front of a hostname.
pub open spec fn https_url(host: Seq<char>) -> Seq<char> {
    "https://"@ + host
}

/// The status of a reconciled port: its two endpoint URLs and its token.
pub fn build_status(
    network: &Network,
    version: u8,
    key: &str,
    extension_name: &str,
    dns_zone: &str,
) -> (r: OgmiosPortStatus)
    ensures
        r.endpoint_url@ == https_url(
            port_hostname(*network, version, None, extension_name@, dns_zone@),
        ),
        r.authenticated_endpoint_url@ == https_url(
            port_hostname(*network, version, Some(key@), extension_name@, dns_zone@),
        ),
        r.auth_token@ == key@,
{
    let pair: (String, String) = build_hostname(
        network,
        version,
        key,
        extension_name,
        dns_zone,
    );
    let mut endpoint_url: String = String::from_str("https://");
    endpoint_url.append(pair.0.as_str());
    let mut authenticated_endpoint_url: String = String::from_str("https://");
    authenticated_endpoint_url.append(pair.1.as_str());
    OgmiosPortStatus { endpoint_url, authenticated_endpoint_url, auth_token: String::from_str(key) }
}

/// Decoding the hostname of a port gives back its key, its network and its
/// version, for every network and version and every well-formed key.
pub proof fn lemma_port_host_round_trip(
    network: Network,
    version: u8,
    key: Option<Seq<char>>,
    extension_name: Seq<char>,
    dns_zone: Seq<char>,
)
    requires
        match key {
            Some(k) => has_key_prefix(k) && k.len() > 5 && all_label(k, 5, k.len() as int),
            None => true,
        },
        no_newline(extension_name, 0, extension_name.len() as int),
        no_newline(dns_zone, 0, dns_zone.len() as int),
    ensures
        decode(port_hostname(network, version, key, extension_name, dns_zone)) == Some(
            HostView { key, network: network_name(network), version: decimal(version as nat) },
        ),
{
    lemma_network_name(network);
    lemma_decimal_digits(version as nat);
    let label = version_label(version);
    let digits = decimal(version as nat);
    assert forall|i: int| 1 <= i < label.len() implies crate::text::is_digit(
        #[trigger] label[i],
    ) by {
        assert(label[i] == digits[i - 1]);
    }
    if key is None {
        lemma_plain_name_reads_without_key(network_name(network), label, extension_name, dns_zone);
    }
    lemma_host_round_trip(network_name(network), label, key, extension_name, dns_zone);
    assert(label.subrange(1, label.len() as int) =~= digits);
}

} // verus!
