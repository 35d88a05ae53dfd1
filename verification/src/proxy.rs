//! What the proxy decides for each request: the health answer, the decoding
//! of the host, the consumer, the protocol and the routing target.

use vstd::prelude::*;
use vstd::string::*;
use crate::credential::{key_shaped, lemma_key_is_label};
use crate::hostname::{decode, no_newline, parse_host, HostParts, HostView};
use crate::port::{lemma_port_host_round_trip, network_name, port_hostname, Network};
use crate::registry::{get_consumer, hash_key_of, views, Consumer, ConsumerView};
use crate::strmap::StrMap;
use crate::text::{
    decimal, decimal_string, eq_ignore_ascii_case, opt_text, parse_unsigned, remove_all,
    same_ignoring_case, same_text, unsigned_of, without,
};

verus! {

/// The protocol of a proxied request.
#[derive(Debug, Clone, Copy, PartialEq, Eq, Structural)]
pub enum Protocol {
    Http,
    Websocket,
}

/// The name of a protocol in metrics.
pub open spec fn protocol_name(p: Protocol) -> Seq<char> {
    match p {
        Protocol::Http => "http"@,
        Protocol::Websocket => "websocket"@,
    }
}

impl Protocol {
    /// The name of the protocol in metrics.
    pub fn to_string(&self) -> (r: String)
        ensures
            r@ == protocol_name(*self),
    {
        match self {
            Protocol::Http => "http".to_owned(),
            Protocol::Websocket => "websocket".to_owned(),
        }
    }
}

/// The proxy's configuration. Addresses and paths are kept as text, the
/// poll interval in seconds.
#[derive(Debug)]
pub struct Config {
    pub proxy_addr: String,
    pub proxy_namespace: String,
    pub proxy_tiers_path: String,
    pub proxy_tiers_poll_interval: u64,
    pub prometheus_addr: String,
    pub ogmios_port: u16,
    pub ogmios_dns: String,
    pub ssl_crt_path: String,
    pub ssl_key_path: String,
}

/// The variables of the proxy as the environment holds them, each
/// present or not.
#[derive(Debug)]
pub struct Environment {
    pub proxy_addr: Option<String>,
    pub proxy_namespace: Option<String>,
    pub proxy_tiers_path: Option<String>,
    pub proxy_tiers_poll_interval: Option<String>,
    pub prometheus_addr: Option<String>,
    pub ssl_crt_path: Option<String>,
    pub ssl_key_path: Option<String>,
    pub ogmios_port: Option<String>,
    pub ogmios_dns: Option<String>,
}

/// What is wrong with an environment, if anything: the first variable, in
/// the order in which the configuration reads them, that is missing or is
/// no number where one is asked for.
pub open spec fn environment_fault(env: Environment) -> Option<Seq<char>> {
    if env.proxy_addr is None {
        Some("PROXY_ADDR must be set"@)
    } else if env.proxy_tiers_path is None {
        Some("PROXY_TIERS_PATH must be set"@)
    } else if env.proxy_tiers_poll_interval is Some && unsigned_of(
        env.proxy_tiers_poll_interval->0@,
        u64::MAX as nat,
    ) is None {
        Some("PROXY_TIERS_POLL_INTERVAL must be a number in seconds. eg: 2"@)
    } else if env.prometheus_addr is None {
        Some("PROMETHEUS_ADDR must be set"@)
    } else if env.ssl_crt_path is None {
        Some("SSL_CRT_PATH must be set"@)
    } else if env.ssl_key_path is None {
        Some("SSL_KEY_PATH must be set"@)
    } else if env.ogmios_port is None {
        Some("OGMIOS_PORT must be set"@)
    } else if unsigned_of(env.ogmios_port->0@, u16::MAX as nat) is None {
        Some("OGMIOS_PORT must a number"@)
    } else if env.ogmios_dns is None {
        Some("OGMIOS_DNS must be set"@)
    } else {
        None
    }
}

/// The configuration is the one that a faultless environment gives: each
/// variable as it stands, the namespace `ftr-ogmios-v1` and a poll interval
/// of two seconds where the environment names none.
pub open spec fn is_config_of(c: Config, env: Environment) -> bool {
    &&& c.proxy_addr@ == env.proxy_addr->0@
    &&& c.proxy_namespace@ == match env.proxy_namespace {
        Some(n) => n@,
        None => "ftr-ogmios-v1"@,
    }
    &&& c.proxy_tiers_path@ == env.proxy_tiers_path->0@
    &&& c.proxy_tiers_poll_interval as nat == match env.proxy_tiers_poll_interval {
        Some(t) => unsigned_of(t@, u64::MAX as nat)->0,
        None => 2nat,
    }
    &&& c.prometheus_addr@ == env.prometheus_addr->0@
    &&& Some(c.ogmios_port as nat) == unsigned_of(env.ogmios_port->0@, u16::MAX as nat)
    &&& c.ogmios_dns@ == env.ogmios_dns->0@
    &&& c.ssl_crt_path@ == env.ssl_crt_path->0@
    &&& c.ssl_key_path@ == env.ssl_key_path->0@
}

/// The variable, or the message that it must be set.
fn required(value: &Option<String>, message: &'static str) -> (r: Result<String, String>)
    ensures
        match r {
            Ok(v) => *value is Some && v@ == value->0@,
            Err(m) => *value is None && m@ == message@,
        },
{
    match value {
        Some(v) => Ok(v.clone()),
        None => Err(message.to_owned()),
    }
}

impl Config {
    /// Builds the configuration from the environment, or names the first
    /// fault of the environment.
    pub fn new(env: &Environment) -> (r: Result<Config, String>)
        ensures
            match r {
                Ok(c) => environment_fault(*env) is None && is_config_of(c, *env),
                Err(m) => environment_fault(*env) == Some(m@),
            },
    {
        let proxy_addr: String = match required(&env.proxy_addr, "PROXY_ADDR must be set") {
            Ok(v) => v,
            Err(m) => {
                return Err(m);
            },
        };
        let proxy_namespace: String = match &env.proxy_namespace {
            Some(n) => n.clone(),
            None => "ftr-ogmios-v1".to_owned(),
        };
        let proxy_tiers_path: String = match required(
            &env.proxy_tiers_path,
            "PROXY_TIERS_PATH must be set",
        ) {
            Ok(v) => v,
            Err(m) => {
                return Err(m);
            },
        };
        let proxy_tiers_poll_interval: u64 = match &env.proxy_tiers_poll_interval {
            Some(t) => match parse_unsigned(t.as_str(), u64::MAX) {
                Some(secs) => secs,
                None => {
                    return Err(
                        "PROXY_TIERS_POLL_INTERVAL must be a number in seconds. eg: 2".to_owned(),
                    );
                },
            },
            None => 2,
        };
        let prometheus_addr: String = match required(
            &env.prometheus_addr,
            "PROMETHEUS_ADDR must be set",
        ) {
            Ok(v) => v,
            Err(m) => {
                return Err(m);
            },
        };
        let ssl_crt_path: String = match required(&env.ssl_crt_path, "SSL_CRT_PATH must be set") {
            Ok(v) => v,
            Err(m) => {
                return Err(m);
            },
        };
        let ssl_key_path: String = match required(&env.ssl_key_path, "SSL_KEY_PATH must be set") {
            Ok(v) => v,
            Err(m) => {
                return Err(m);
            },
        };
        let port_text: String = match required(&env.ogmios_port, "OGMIOS_PORT must be set") {
            Ok(v) => v,
            Err(m) => {
                return Err(m);
            },
        };
        let ogmios_port: u16 = match parse_unsigned(port_text.as_str(), 65535) {
            Some(p) => p as u16,
            None => {
                return Err("OGMIOS_PORT must a number".to_owned());
            },
        };
        let ogmios_dns: String = match required(&env.ogmios_dns, "OGMIOS_DNS must be set") {
            Ok(v) => v,
            Err(m) => {
                return Err(m);
            },
        };
        Ok(
            Config {
                proxy_addr,
                proxy_namespace,
                proxy_tiers_path,
                proxy_tiers_poll_interval,
                prometheus_addr,
                ogmios_port,
                ogmios_dns,
                ssl_crt_path,
                ssl_key_path,
            },
        )
    }
}

/// A request that the proxy can route.
#[derive(Debug)]
pub struct ProxyRequest {
    pub namespace: String,
    pub host: String,
    pub instance: String,
    pub consumer: Option<Consumer>,
    pub protocol: Protocol,
}

/// A routable request as plain values.
pub struct ProxyRequestView {
    pub namespace: Seq<char>,
    pub host: Seq<char>,
    pub instance: Seq<char>,
    pub consumer: Option<ConsumerView>,
    pub protocol: Protocol,
}

impl View for ProxyRequest {
    type V = ProxyRequestView;

    open spec fn view(&self) -> ProxyRequestView {
        ProxyRequestView {
            namespace: self.namespace@,
            host: self.host@,
            instance: self.instance@,
            consumer: match self.consumer {
                Some(c) => Some(c@),
                None => None,
            },
            protocol: self.protocol,
        }
    }
}

impl Clone for ProxyRequest {
    fn clone(&self) -> (r: Self)
        ensures
            r@ == self@,
    {
        ProxyRequest {
            namespace: self.namespace.clone(),
            host: self.host.clone(),
            instance: self.instance.clone(),
            consumer: match &self.consumer {
                Some(c) => Some(c.clone()),
                None => None,
            },
            protocol: self.protocol,
        }
    }
}

/// The backend of a network and version:
/// `ogmios-{network}-v{version}.{ogmios_dns}:{ogmios_port}`.
pub open spec fn routing_target(
    network: Seq<char>,
    version: Seq<char>,
    ogmios_dns: Seq<char>,
    ogmios_port: u16,
) -> Seq<char> {
    "ogmios-"@ + network + "-v"@ + version + seq!['.'] + ogmios_dns + seq![':'] + decimal(
        ogmios_port as nat,
    )
}

/// Builds the address of the backend of a network and version.
pub fn build_target(network: &str, version: &str, ogmios_dns: &str, ogmios_port: u16) -> (r: String)
    ensures
        r@ == routing_target(network@, version@, ogmios_dns@, ogmios_port),
{
    proof {
        reveal_strlit(".");
        reveal_strlit(":");
    }
    assert("."@ =~= seq!['.']);
    assert(":"@ =~= seq![':']);
    let port: String = decimal_string(ogmios_port as u64);
    let mut out: String = String::from_str("ogmios-");
    out.append(network);
    out.append("-v");
    out.append(version);
    out.append(".");
    out.append(ogmios_dns);
    out.append(":");
    out.append(port.as_str());
    out
}

/// The protocol that an `Upgrade` header asks for: WebSocket where it
/// reads `websocket` in any case of letters, HTTP otherwise.
pub open spec fn protocol_of(upgrade: Option<Seq<char>>) -> Protocol {
    match upgrade {
        Some(u) => if same_ignoring_case(u, "websocket"@) {
            Protocol::Websocket
        } else {
            Protocol::Http
        },
        None => Protocol::Http,
    }
}

/// The token of a request: the key in its host, else the key in its
/// `dmtr-api-key` header, else the empty text.
pub open spec fn request_token(parts: HostView, api_key: Option<Seq<char>>) -> Seq<char> {
    match parts.key {
        Some(k) => k,
        None => match api_key {
            Some(h) => h,
            None => Seq::<char>::empty(),
        },
    }
}

/// The host as metrics name it: without any `{key}.` of the key in it.
pub open spec fn metrics_host(host: Seq<char>, parts: HostView) -> Seq<char> {
    match parts.key {
        Some(k) => without(host, k + seq!['.']),
        None => host,
    }
}

/// The request that a host, an `Upgrade` header and a `dmtr-api-key`
/// header give under a configuration and a registry, or `None` where there
/// is no host or it cannot be decoded.
pub open spec fn request_of(
    host: Option<Seq<char>>,
    upgrade: Option<Seq<char>>,
    api_key: Option<Seq<char>>,
    config: Config,
    consumers: Map<Seq<char>, ConsumerView>,
) -> Option<ProxyRequestView> {
    match host {
        None => None,
        Some(h) => match decode(h) {
            None => None,
            Some(parts) => {
                let hash_key = hash_key_of(
                    parts.network,
                    parts.version,
                    request_token(parts, api_key),
                );
                Some(
                    ProxyRequestView {
                        namespace: config.proxy_namespace@,
                        host: metrics_host(h, parts),
                        instance: routing_target(
                            parts.network,
                            parts.version,
                            config.ogmios_dns@,
                            config.ogmios_port,
                        ),
                        consumer: if consumers.contains_key(hash_key) {
                            Some(consumers[hash_key])
                        } else {
                            None
                        },
                        protocol: protocol_of(upgrade),
                    },
                )
            },
        },
    }
}

/// The host without the `{key}.` of its key, where it has one.
fn strip_key(host: &str, parts: &HostParts) -> (r: String)
    ensures
        r@ == metrics_host(host@, parts@),
{
    proof {
        reveal_strlit(".");
    }
    assert("."@ =~= seq!['.']);
    match &parts.key {
        Some(k) => {
            let mut pattern: String = k.clone();
            pattern.append(".");
            remove_all(host, pattern.as_str())
        },
        None => host.to_owned(),
    }
}

impl ProxyRequest {
    /// Reads a request from its `Host`, `Upgrade` and `dmtr-api-key`
    /// headers: decodes the host, picks the backend and the protocol, and
    /// looks the consumer up under the key of the host or, without one,
    /// of the header.
    pub fn new(
        host: Option<&str>,
        upgrade: Option<&str>,
        api_key: Option<&str>,
        config: &Config,
        consumers: &StrMap<Consumer>,
    ) -> (r: Option<ProxyRequest>)
        requires
            consumers.wf(),
        ensures
            match r {
                Some(req) => Some(req@) == request_of(
                    opt_text(host),
                    opt_text(upgrade),
                    opt_text(api_key),
                    *config,
                    views(consumers@),
                ),
                None => request_of(
                    opt_text(host),
                    opt_text(upgrade),
                    opt_text(api_key),
                    *config,
                    views(consumers@),
                ) is None,
            },
    {
        let host: &str = match host {
            Some(h) => h,
            None => {
                return None;
            },
        };
        let parts: HostParts = match parse_host(host) {
            Some(p) => p,
            None => {
                return None;
            },
        };
        let instance: String = build_target(
            parts.network.as_str(),
            parts.version.as_str(),
            config.ogmios_dns.as_str(),
            config.ogmios_port,
        );
        let protocol: Protocol = match upgrade {
            Some(u) => if eq_ignore_ascii_case(u, "websocket") {
                Protocol::Websocket
            } else {
                Protocol::Http
            },
            None => Protocol::Http,
        };
        let label: String = strip_key(host, &parts);
        let consumer: Option<Consumer> = match &parts.key {
            Some(k) => get_consumer(
                consumers,
                parts.network.as_str(),
                parts.version.as_str(),
                k.as_str(),
            ),
            None => match api_key {
                Some(h) => get_consumer(
                    consumers,
                    parts.network.as_str(),
                    parts.version.as_str(),
                    h,
                ),
                None => get_consumer(
                    consumers,
                    parts.network.as_str(),
                    parts.version.as_str(),
                    "",
                ),
            },
        };
        proof {
            reveal_strlit("");
            assert(""@ =~= Seq::<char>::empty());
        }
        Some(
            ProxyRequest {
                namespace: config.proxy_namespace.clone(),
                host: label,
                instance,
                consumer,
                protocol,
            },
        )
    }
}

/// What the proxy does with a request.
#[derive(Debug)]
pub enum Decision {
    /// Answer `200 pong`.
    Healthz,
    /// Answer `502 Invalid hostname`.
    BadGateway,
    /// Answer `401 Unauthorized`.
    Unauthorized,
    /// Forward to the backend of the request.
    Forward(ProxyRequest),
}

/// The decision as plain values.
pub enum DecisionView {
    Healthz,
    BadGateway,
    Unauthorized,
    Forward(ProxyRequestView),
}

impl View for Decision {
    type V = DecisionView;

    open spec fn view(&self) -> DecisionView {
        match *self {
            Decision::Healthz => DecisionView::Healthz,
            Decision::BadGateway => DecisionView::BadGateway,
            Decision::Unauthorized => DecisionView::Unauthorized,
            Decision::Forward(req) => DecisionView::Forward(req@),
        }
    }
}

/// The decision on a request: `GET /healthz` is answered whatever the
/// registry holds; a host that cannot be decoded is a bad gateway; a
/// request without a registered consumer is unauthorized; every other
/// request is forwarded.
pub open spec fn decision_of(
    method: Seq<char>,
    path: Seq<char>,
    request: Option<ProxyRequestView>,
) -> DecisionView {
    if method == "GET"@ && path == "/healthz"@ {
        DecisionView::Healthz
    } else {
        match request {
            None => DecisionView::BadGateway,
            Some(req) => if req.consumer is None {
                DecisionView::Unauthorized
            } else {
                DecisionView::Forward(req)
            },
        }
    }
}

/// Decides what to do with a request.
pub fn handle(
    method: &str,
    path: &str,
    host: Option<&str>,
    upgrade: Option<&str>,
    api_key: Option<&str>,
    config: &Config,
    consumers: &StrMap<Consumer>,
) -> (r: Decision)
    requires
        consumers.wf(),
    ensures
        r@ == decision_of(
            method@,
            path@,
            request_of(
                opt_text(host),
                opt_text(upgrade),
                opt_text(api_key),
                *config,
                views(consumers@),
            ),
        ),
{
    if same_text(method, "GET") && same_text(path, "/healthz") {
        return Decision::Healthz;
    }
    match ProxyRequest::new(host, upgrade, api_key, config, consumers) {
        None => Decision::BadGateway,
        Some(req) => {
            if req.consumer.is_none() {
                Decision::Unauthorized
            } else {
                Decision::Forward(req)
            }
        },
    }
}

impl Decision {
    /// The status code of the answer that the proxy gives by itself, or
    /// `None` where the request is forwarded and the backend answers.
    pub fn status_code(&self) -> (r: Option<u16>)
        ensures
            r == match *self {
                Decision::Healthz => Some(200u16),
                Decision::BadGateway => Some(502u16),
                Decision::Unauthorized => Some(401u16),
                Decision::Forward(_) => None,
            },
    {
        match self {
            Decision::Healthz => Some(200),
            Decision::BadGateway => Some(502),
            Decision::Unauthorized => Some(401),
            Decision::Forward(_) => None,
        }
    }

    /// The body of the answer that the proxy gives by itself; empty where
    /// the request is forwarded.
    pub fn body(&self) -> (r: &'static str)
        ensures
            r@ == match *self {
                Decision::Healthz => "pong"@,
                Decision::BadGateway => "Invalid hostname"@,
                Decision::Unauthorized => "Unauthorized"@,
                Decision::Forward(_) => ""@,
            },
    {
        match self {
            Decision::Healthz => "pong",
            Decision::BadGateway => "Invalid hostname",
            Decision::Unauthorized => "Unauthorized",
            Decision::Forward(_) => "",
        }
    }
}

/// What the metrics listener answers.
#[derive(Debug, Clone, Copy, PartialEq, Eq, Structural)]
pub enum MetricsRoute {
    /// The text of the registry, with status 200.
    Metrics,
    /// `404 Not Found`.
    NotFound,
}

/// Decides what the metrics listener answers: the metrics for
/// `GET /metrics`, not found for everything else.
pub fn routes_match(method: &str, path: &str) -> (r: MetricsRoute)
    ensures
        r == if method@ == "GET"@ && path@ == "/metrics"@ {
            MetricsRoute::Metrics
        } else {
            MetricsRoute::NotFound
        },
{
    if same_text(method, "GET") && same_text(path, "/metrics") {
        MetricsRoute::Metrics
    } else {
        MetricsRoute::NotFound
    }
}

/// The consumer that the registry holds under a registry key, if any.
pub open spec fn registered(
    consumers: Map<Seq<char>, ConsumerView>,
    hash_key: Seq<char>,
) -> Option<ConsumerView> {
    if consumers.contains_key(hash_key) {
        Some(consumers[hash_key])
    } else {
        None
    }
}

/// A request on the keyed hostname of a port, under a key of the derived
/// shape, is read back whole: the registry is asked for exactly the
/// network, the version and the key, the backend is the one of network and
/// version, and the host in metrics is the hostname without the key. The
/// last holds exactly where `{key}.` does not stand in the plain hostname
/// itself, whence it would be taken out as well.
pub proof fn lemma_keyed_request(
    network: Network,
    version: u8,
    key: Seq<char>,
    extension_name: Seq<char>,
    dns_zone: Seq<char>,
    upgrade: Option<Seq<char>>,
    api_key: Option<Seq<char>>,
    config: Config,
    consumers: Map<Seq<char>, ConsumerView>,
)
    requires
        key_shaped(key),
        no_newline(extension_name, 0, extension_name.len() as int),
        no_newline(dns_zone, 0, dns_zone.len() as int),
        without(port_hostname(network, version, None, extension_name, dns_zone), key + seq!['.'])
            == port_hostname(network, version, None, extension_name, dns_zone),
    ensures
        request_of(
            Some(port_hostname(network, version, Some(key), extension_name, dns_zone)),
            upgrade,
            api_key,
            config,
            consumers,
        ) == Some(
            ProxyRequestView {
                namespace: config.proxy_namespace@,
                host: port_hostname(network, version, None, extension_name, dns_zone),
                instance: routing_target(
                    network_name(network),
                    decimal(version as nat),
                    config.ogmios_dns@,
                    config.ogmios_port,
                ),
                consumer: registered(
                    consumers,
                    hash_key_of(network_name(network), decimal(version as nat), key),
                ),
                protocol: protocol_of(upgrade),
            },
        ),
{
    lemma_key_is_label(key);
    lemma_port_host_round_trip(network, version, Some(key), extension_name, dns_zone);
    let plain = port_hostname(network, version, None, extension_name, dns_zone);
    let keyed = port_hostname(network, version, Some(key), extension_name, dns_zone);
    let pattern = key + seq!['.'];
    assert(keyed =~= pattern + plain);
    assert(keyed.subrange(0, pattern.len() as int) =~= pattern);
    assert(keyed.subrange(pattern.len() as int, keyed.len() as int) =~= plain);
}

/// A request on the plain hostname of a port is read back whole: no key
/// is found in the host, the registry is asked for the network, the version
/// and the key of the header, or the empty key without one, and the host in
/// metrics is the hostname unchanged.
pub proof fn lemma_plain_request(
    network: Network,
    version: u8,
    extension_name: Seq<char>,
    dns_zone: Seq<char>,
    upgrade: Option<Seq<char>>,
    api_key: Option<Seq<char>>,
    config: Config,
    consumers: Map<Seq<char>, ConsumerView>,
)
    requires
        no_newline(extension_name, 0, extension_name.len() as int),
        no_newline(dns_zone, 0, dns_zone.len() as int),
    ensures
        request_of(
            Some(port_hostname(network, version, None, extension_name, dns_zone)),
            upgrade,
            api_key,
            config,
            consumers,
        ) == Some(
            ProxyRequestView {
                namespace: config.proxy_namespace@,
                host: port_hostname(network, version, None, extension_name, dns_zone),
                instance: routing_target(
                    network_name(network),
                    decimal(version as nat),
                    config.ogmios_dns@,
                    config.ogmios_port,
                ),
                consumer: registered(
                    consumers,
                    hash_key_of(
                        network_name(network),
                        decimal(version as nat),
                        match api_key {
                            Some(h) => h,
                            None => Seq::<char>::empty(),
                        },
                    ),
                ),
                protocol: protocol_of(upgrade),
            },
        ),
{
    lemma_port_host_round_trip(network, version, None, extension_name, dns_zone);
}

} // verus!
