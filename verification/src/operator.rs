//! The operator's reconciler: the artefacts that expose a port through the
//! shared ingress, each built from the port and the configuration.

use vstd::prelude::*;
use vstd::string::*;
use crate::credential::{derivable, derive_key, key_shaped, key_text};
use crate::error::OperatorError;
use crate::hostname::{auth_name, build_auth_name, has_dash, hostname, project_id, project_id_of};
use crate::port::{build_status, https_url, network_name, port_hostname, Network, OgmiosPortStatus, Port};
use crate::text::{
    all_digit, chars_of, decimal, decimal_string, digit_char, digits_value, parse_unsigned,
    read_digits, unsigned_of,
};

verus! {

/// The operator's configuration, but for the weights of the billing.
#[derive(Debug)]
pub struct Config {
    pub dns_zone: String,
    pub namespace: String,
    pub ingress_class: String,
    pub api_key_salt: String,
    pub extension_name: String,
    pub http_port: String,
    pub metrics_delay: u64,
    pub prometheus_url: String,
}

/// The variables of the operator as the environment holds them, each
/// present or not. The weights of the billing are read apart.
#[derive(Debug)]
pub struct Environment {
    pub dns_zone: Option<String>,
    pub namespace: Option<String>,
    pub ingress_class: Option<String>,
    pub api_key_salt: Option<String>,
    pub extension_name: Option<String>,
    pub http_port: Option<String>,
    pub metrics_delay: Option<String>,
    pub prometheus_url: Option<String>,
}

/// What is wrong with an environment, if anything: the delay between two
/// collections is missing or is no number, or else the address of
/// Prometheus is missing.
pub open spec fn environment_fault(env: Environment) -> Option<Seq<char>> {
    if env.metrics_delay is None {
        Some("METRICS_DELAY must be set"@)
    } else if unsigned_of(env.metrics_delay->0@, u64::MAX as nat) is None {
        Some("METRICS_DELAY must be a number"@)
    } else if env.prometheus_url is None {
        Some("PROMETHEUS_URL must be set"@)
    } else {
        None
    }
}

/// The value of a variable, or its default where the environment names none.
pub open spec fn or_default(value: Option<String>, default: Seq<char>) -> Seq<char> {
    match value {
        Some(v) => v@,
        None => default,
    }
}

/// The configuration is the one that a faultless environment gives.
pub open spec fn is_config_of(c: Config, env: Environment) -> bool {
    &&& c.dns_zone@ == or_default(env.dns_zone, "demeter.run"@)
    &&& c.namespace@ == or_default(env.namespace, "ftr-ogmios-v1"@)
    &&& c.ingress_class@ == or_default(env.ingress_class, "ogmios-v1"@)
    &&& c.api_key_salt@ == or_default(env.api_key_salt, "ogmios-salt"@)
    &&& c.extension_name@ == or_default(env.extension_name, "ogmios-m1"@)
    &&& c.http_port@ == or_default(env.http_port, "1337"@)
    &&& Some(c.metrics_delay as nat) == unsigned_of(env.metrics_delay->0@, u64::MAX as nat)
    &&& c.prometheus_url@ == env.prometheus_url->0@
}

/// The variable, or its default.
fn defaulted(value: &Option<String>, default: &'static str) -> (r: String)
    ensures
        r@ == or_default(*value, default@),
{
    match value {
        Some(v) => v.clone(),
        None => default.to_owned(),
    }
}

impl Config {
    /// Builds the configuration from the environment, or names the first
    /// fault of the environment.
    pub fn from_env(env: &Environment) -> (r: Result<Config, String>)
        ensures
            match r {
                Ok(c) => environment_fault(*env) is None && is_config_of(c, *env),
                Err(m) => environment_fault(*env) == Some(m@),
            },
    {
        let metrics_delay: u64 = match &env.metrics_delay {
            Some(t) => match parse_unsigned(t.as_str(), u64::MAX) {
                Some(secs) => secs,
                None => {
                    return Err("METRICS_DELAY must be a number".to_owned());
                },
            },
            None => {
                return Err("METRICS_DELAY must be set".to_owned());
            },
        };
        let prometheus_url: String = match &env.prometheus_url {
            Some(u) => u.clone(),
            None => {
                return Err("PROMETHEUS_URL must be set".to_owned());
            },
        };
        Ok(
            Config {
                dns_zone: defaulted(&env.dns_zone, "demeter.run"),
                namespace: defaulted(&env.namespace, "ftr-ogmios-v1"),
                ingress_class: defaulted(&env.ingress_class, "ogmios-v1"),
                api_key_salt: defaulted(&env.api_key_salt, "ogmios-salt"),
                extension_name: defaulted(&env.extension_name, "ogmios-m1"),
                http_port: defaulted(&env.http_port, "1337"),
                metrics_delay,
                prometheus_url,
            },
        )
    }
}

/// How a kind of resource is addressed.
#[derive(Debug)]
pub struct ApiResource {
    pub group: String,
    pub version: String,
    pub api_version: String,
    pub kind: String,
    pub plural: String,
}

/// The consumer records of the ingress.
pub fn kong_consumer() -> (r: ApiResource)
    ensures
        r.group@ == "configuration.konghq.com"@,
        r.version@ == "v1"@,
        r.api_version@ == "configuration.konghq.com/v1"@,
        r.kind@ == "KongConsumer"@,
        r.plural@ == "kongconsumers"@,
{
    ApiResource {
        group: "configuration.konghq.com".to_owned(),
        version: "v1".to_owned(),
        api_version: "configuration.konghq.com/v1".to_owned(),
        kind: "KongConsumer".to_owned(),
        plural: "kongconsumers".to_owned(),
    }
}

/// The HTTP routes of the gateway.
pub fn http_route() -> (r: ApiResource)
    ensures
        r.group@ == "gateway.networking.k8s.io"@,
        r.version@ == "v1"@,
        r.api_version@ == "gateway.networking.k8s.io/v1"@,
        r.kind@ == "HTTPRoute"@,
        r.plural@ == "httproutes"@,
{
    ApiResource {
        group: "gateway.networking.k8s.io".to_owned(),
        version: "v1".to_owned(),
        api_version: "gateway.networking.k8s.io/v1".to_owned(),
        kind: "HTTPRoute".to_owned(),
        plural: "httproutes".to_owned(),
    }
}

/// The reference grants of the gateway.
pub fn reference_grant() -> (r: ApiResource)
    ensures
        r.group@ == "gateway.networking.k8s.io"@,
        r.version@ == "v1beta1"@,
        r.api_version@ == "gateway.networking.k8s.io/v1beta1"@,
        r.kind@ == "ReferenceGrant"@,
        r.plural@ == "referencegrants"@,
{
    ApiResource {
        group: "gateway.networking.k8s.io".to_owned(),
        version: "v1beta1".to_owned(),
        api_version: "gateway.networking.k8s.io/v1beta1".to_owned(),
        kind: "ReferenceGrant".to_owned(),
        plural: "referencegrants".to_owned(),
    }
}

/// The reference from an artefact to the port that owns it, so that
/// deleting the port deletes the artefact.
#[derive(Debug)]
pub struct OwnerReference {
    pub api_version: String,
    pub kind: String,
    pub name: String,
    pub uid: String,
}

/// The owner reference points at the port.
pub open spec fn owned_by(owner: OwnerReference, port: Port) -> bool {
    &&& owner.api_version@ == "demeter.run/v1alpha1"@
    &&& owner.kind@ == "OgmiosPort"@
    &&& owner.name@ == port.name@
    &&& owner.uid@ == port.uid@
}

/// Builds the owner reference of the artefacts of a port.
pub fn owner_reference(port: &Port) -> (r: OwnerReference)
    ensures
        owned_by(r, *port),
{
    OwnerReference {
        api_version: "demeter.run/v1alpha1".to_owned(),
        kind: "OgmiosPort".to_owned(),
        name: port.name.clone(),
        uid: port.uid.clone(),
    }
}

/// The secret that holds the key of a port.
#[derive(Debug)]
pub struct Secret {
    pub name: String,
    pub owner: OwnerReference,
    pub credential_label: String,
    pub type_: String,
    pub key: String,
}

/// The secret is the one of the port and the key: named
/// `ogmios-auth-{name}`, opaque, labelled as a key-auth credential, owned by
/// the port, and holding the key.
pub open spec fn is_secret_of(secret: Secret, port: Port, key: Seq<char>) -> bool {
    &&& secret.name@ == auth_name(port.name@)
    &&& owned_by(secret.owner, port)
    &&& secret.credential_label@ == "key-auth"@
    &&& secret.type_@ == "Opaque"@
    &&& secret.key@ == key
}

/// Builds the secret of a port.
pub fn build_secret(port: &Port, api_key: &str) -> (r: Secret)
    ensures
        is_secret_of(r, *port, api_key@),
{
    Secret {
        name: build_auth_name(port.name.as_str()),
        owner: owner_reference(port),
        credential_label: "key-auth".to_owned(),
        type_: "Opaque".to_owned(),
        key: api_key.to_owned(),
    }
}

/// The consumer record of a port.
#[derive(Debug)]
pub struct KongConsumer {
    pub name: String,
    pub ingress_class: String,
    pub owner: OwnerReference,
    pub username: String,
    pub credentials: Vec<String>,
}

/// The tenant of a port: `{namespace}.{name}`.
pub open spec fn username_of(port: Port) -> Seq<char> {
    port.namespace@ + seq!['.'] + port.name@
}

/// The consumer record is the one of the port: named `ogmios-auth-{name}`,
/// bound to the ingress class, owned by the port, identifying the tenant
/// and listing the secret of the port as its one credential.
pub open spec fn is_consumer_of(c: KongConsumer, port: Port, config: Config) -> bool {
    &&& c.name@ == auth_name(port.name@)
    &&& c.ingress_class@ == config.ingress_class@
    &&& owned_by(c.owner, port)
    &&& c.username@ == username_of(port)
    &&& c.credentials@.len() == 1
    &&& c.credentials@[0]@ == auth_name(port.name@)
}

/// Builds the consumer record of a port.
pub fn build_consumer(port: &Port, config: &Config) -> (r: KongConsumer)
    ensures
        is_consumer_of(r, *port, *config),
{
    proof {
        reveal_strlit(".");
    }
    assert("."@ =~= seq!['.']);
    let mut username: String = port.namespace.clone();
    username.append(".");
    username.append(port.name.as_str());
    let mut credentials: Vec<String> = Vec::new();
    credentials.push(build_auth_name(port.name.as_str()));
    KongConsumer {
        name: build_auth_name(port.name.as_str()),
        ingress_class: config.ingress_class.clone(),
        owner: owner_reference(port),
        username,
        credentials,
    }
}

/// The name of the key-auth plugin of a port: `ogmios-auth-{name}`.
pub fn get_auth_name(name: &str) -> (r: String)
    ensures
        r@ == auth_name(name@),
{
    build_auth_name(name)
}

/// The name of the access-list plugin of a port: `ogmios-acl-{name}`.
pub open spec fn acl_name(name: Seq<char>) -> Seq<char> {
    "ogmios-acl-"@ + name
}

/// Builds the name of the access-list plugin of a port.
pub fn get_acl_name(name: &str) -> (r: String)
    ensures
        r@ == acl_name(name@),
{
    let mut out: String = String::from_str("ogmios-acl-");
    out.append(name);
    out
}

/// The name of the route of a port: `ogmios-http-route-{name}`.
pub open spec fn http_route_name(name: Seq<char>) -> Seq<char> {
    "ogmios-http-route-"@ + name
}

/// Builds the name of the route of a port.
pub fn get_http_route_name(name: &str) -> (r: String)
    ensures
        r@ == http_route_name(name@),
{
    let mut out: String = String::from_str("ogmios-http-route-");
    out.append(name);
    out
}

/// The name of the keyed route of a port: `ogmios-http-route-key-{name}`.
pub open spec fn http_route_key_name(name: Seq<char>) -> Seq<char> {
    "ogmios-http-route-key-"@ + name
}

/// Builds the name of the keyed route of a port.
pub fn get_http_route_key_name(name: &str) -> (r: String)
    ensures
        r@ == http_route_key_name(name@),
{
    let mut out: String = String::from_str("ogmios-http-route-key-");
    out.append(name);
    out
}

/// The backend service of a network and version: `ogmios-{network}-v{version}`.
pub open spec fn service_name(network: Network, version: u8) -> Seq<char> {
    "ogmios-"@ + network_name(network) + "-v"@ + decimal(version as nat)
}

/// Builds the name of the backend service of a network and version.
pub fn ogmios_service_name(network: &Network, version: &u8) -> (r: String)
    ensures
        r@ == service_name(*network, *version),
{
    let digits: String = decimal_string(*version as u64);
    let mut out: String = String::from_str("ogmios-");
    out.append(network.as_str());
    out.append("-v");
    out.append(digits.as_str());
    out
}

/// The integer that a text stands for as Rust reads an `i32`: an optional
/// sign, then digits and nothing else, within the range of the type.
pub open spec fn i32_of(s: Seq<char>) -> Option<int> {
    let signed = s.len() > 0 && (s[0] == '-' || s[0] == '+');
    let digits = if signed {
        s.subrange(1, s.len() as int)
    } else {
        s
    };
    if digits.len() == 0 || !all_digit(digits, 0, digits.len() as int) {
        None
    } else {
        let value = if s[0] == '-' {
            -(digits_value(digits) as int)
        } else {
            digits_value(digits) as int
        };
        if -2147483648 <= value <= 2147483647 {
            Some(value)
        } else {
            None
        }
    }
}

/// Reads the port of the backend service from its text.
pub fn parse_port(text: &str) -> (r: Result<i32, OperatorError>)
    ensures
        match r {
            Ok(x) => i32_of(text@) == Some(x as int),
            Err(e) => e is ParseIntError && i32_of(text@) is None,
        },
{
    let v: Vec<char> = chars_of(text);
    let n: usize = v.len();
    let signed: bool = n > 0 && (v[0] == '-' || v[0] == '+');
    let start: usize = if signed {
        1
    } else {
        0
    };
    let ghost digits = if signed {
        v@.subrange(1, n as int)
    } else {
        v@
    };
    if start == n {
        return Err(
            OperatorError::ParseIntError("cannot parse integer from empty string".to_owned()),
        );
    }
    let mut k: usize = start;
    while k < n
        invariant
            start <= k <= n,
            n == v.len(),
            v@ == text@,
            start == if signed { 1int } else { 0int },
            signed == (n > 0 && (v@[0] == '-' || v@[0] == '+')),
            digits == if signed { v@.subrange(1, n as int) } else { v@ },
            all_digit(v@, start as int, k as int),
        decreases n - k,
    {
        if !digit_char(v[k]) {
            assert(digits[k - start] == v@[k as int]);
            return Err(OperatorError::ParseIntError("invalid digit found in string".to_owned()));
        }
        k = k + 1;
    }
    assert(all_digit(digits, 0, digits.len() as int)) by {
        assert forall|i: int| 0 <= i < digits.len() implies crate::text::is_digit(
            #[trigger] digits[i],
        ) by {
            assert(digits[i] == v@[i + start]);
        }
    }
    assert(v@.subrange(start as int, n as int) =~= digits);
    match read_digits(&v, start, n, 2147483648) {
        Some(x) => {
            if v[0] == '-' {
                Ok((0 - (x as i64)) as i32)
            } else if x <= 2147483647 {
                Ok(x as i32)
            } else {
                Err(
                    OperatorError::ParseIntError(
                        "number too large to fit in target type".to_owned(),
                    ),
                )
            }
        },
        None => Err(OperatorError::ParseIntError("number out of range".to_owned())),
    }
}

/// A route of a port through the ingress.
#[derive(Debug)]
pub struct HttpRoute {
    pub name: String,
    pub instance_label: String,
    pub tenancy_label: String,
    pub kind_label: String,
    pub plugins: String,
    pub owner: OwnerReference,
    pub hostname: String,
    pub parent_name: String,
    pub parent_namespace: String,
    pub backend_kind: String,
    pub backend_name: String,
    pub backend_port: i32,
    pub backend_namespace: String,
}

/// The plugins of the routes of a port: `{auth},{acl}`.
pub open spec fn plugins_of(port_name: Seq<char>) -> Seq<char> {
    auth_name(port_name) + seq![','] + acl_name(port_name)
}

/// The route is the one of that name and hostname for the port: labelled
/// with its name, annotated with the plugins of the port, owned by the
/// port, bound to the ingress class in the operator's namespace, and
/// leading to the backend service on the configured port.
pub open spec fn is_route_of(
    route: HttpRoute,
    name: Seq<char>,
    host: Seq<char>,
    port: Port,
    service: Seq<char>,
    config: Config,
) -> bool {
    &&& route.name@ == name
    &&& route.instance_label@ == name
    &&& route.tenancy_label@ == "project"@
    &&& route.kind_label@ == "http-route"@
    &&& route.plugins@ == plugins_of(port.name@)
    &&& owned_by(route.owner, port)
    &&& route.hostname@ == host
    &&& route.parent_name@ == config.ingress_class@
    &&& route.parent_namespace@ == config.namespace@
    &&& route.backend_kind@ == "Service"@
    &&& route.backend_name@ == service
    &&& i32_of(config.http_port@) == Some(route.backend_port as int)
    &&& route.backend_namespace@ == config.namespace@
}

/// Builds a route of a port, or fails where the configured port of the
/// backend is no integer.
pub fn build_route(name: &str, hostname: &str, port: &Port, ogmios_service: &str, config: &Config) -> (r:
    Result<HttpRoute, OperatorError>)
    ensures
        match r {
            Ok(route) => is_route_of(route, name@, hostname@, *port, ogmios_service@, *config),
            Err(e) => e is ParseIntError && i32_of(config.http_port@) is None,
        },
{
    proof {
        reveal_strlit(",");
    }
    assert(","@ =~= seq![',']);
    let backend_port: i32 = match parse_port(config.http_port.as_str()) {
        Ok(p) => p,
        Err(e) => {
            return Err(e);
        },
    };
    let mut plugins: String = get_auth_name(port.name.as_str());
    plugins.append(",");
    let acl: String = get_acl_name(port.name.as_str());
    plugins.append(acl.as_str());
    Ok(
        HttpRoute {
            name: name.to_owned(),
            instance_label: name.to_owned(),
            tenancy_label: "project".to_owned(),
            kind_label: "http-route".to_owned(),
            plugins,
            owner: owner_reference(port),
            hostname: hostname.to_owned(),
            parent_name: config.ingress_class.clone(),
            parent_namespace: config.namespace.clone(),
            backend_kind: "Service".to_owned(),
            backend_name: ogmios_service.to_owned(),
            backend_port,
            backend_namespace: config.namespace.clone(),
        },
    )
}

/// The grant that lets the routes of a tenant's namespace lead to a
/// backend service in the operator's namespace.
#[derive(Debug)]
pub struct ReferenceGrant {
    pub name: String,
    pub from_group: String,
    pub from_kind: String,
    pub from_namespace: String,
    pub to_group: String,
    pub to_kind: String,
    pub to_name: String,
}

/// The grant is the one of that name from the HTTP routes of the tenant's
/// namespace to the backend service.
pub open spec fn is_grant_of(
    grant: ReferenceGrant,
    name: Seq<char>,
    service: Seq<char>,
    project_namespace: Seq<char>,
) -> bool {
    &&& grant.name@ == name
    &&& grant.from_group@ == "gateway.networking.k8s.io"@
    &&& grant.from_kind@ == "HTTPRoute"@
    &&& grant.from_namespace@ == project_namespace
    &&& grant.to_group@ == ""@
    &&& grant.to_kind@ == "Service"@
    &&& grant.to_name@ == service
}

/// Builds a reference grant.
pub fn build_grant(name: &str, ogmios_service: &str, project_namespace: &str) -> (r: ReferenceGrant)
    ensures
        is_grant_of(r, name@, ogmios_service@, project_namespace@),
{
    let routes: ApiResource = http_route();
    ReferenceGrant {
        name: name.to_owned(),
        from_group: routes.group,
        from_kind: routes.kind,
        from_namespace: project_namespace.to_owned(),
        to_group: "".to_owned(),
        to_kind: "Service".to_owned(),
        to_name: ogmios_service.to_owned(),
    }
}

/// The name of the grant of a port: `{namespace}-{name}-http`.
pub open spec fn grant_name(port: Port) -> Seq<char> {
    port.namespace@ + seq!['-'] + port.name@ + "-http"@
}

/// Builds the name of the grant of a port.
pub fn build_grant_name(port: &Port) -> (r: String)
    ensures
        r@ == grant_name(*port),
{
    proof {
        reveal_strlit("-");
    }
    assert("-"@ =~= seq!['-']);
    let mut out: String = port.namespace.clone();
    out.append("-");
    out.append(port.name.as_str());
    out.append("-http");
    out
}

/// How an artefact is written: patched where it exists, created where not.
#[derive(Debug, Clone, Copy, PartialEq, Eq, Structural)]
pub enum Upsert {
    Patch,
    Create,
}

/// Decides how to write an artefact from whether it was found.
pub fn upsert(found: bool) -> (r: Upsert)
    ensures
        r == if found {
            Upsert::Patch
        } else {
            Upsert::Create
        },
{
    if found {
        Upsert::Patch
    } else {
        Upsert::Create
    }
}

/// Everything that reconciling a port writes.
#[derive(Debug)]
pub struct ReconcilePlan {
    pub secret: Secret,
    pub consumer: KongConsumer,
    pub route: HttpRoute,
    pub route_key: HttpRoute,
    pub grant: ReferenceGrant,
    pub status: OgmiosPortStatus,
}

/// The plan is the one of the port under the key and the configuration.
pub open spec fn is_plan_of(plan: ReconcilePlan, port: Port, key: Seq<char>, config: Config) -> bool {
    let service = service_name(port.spec.network, port.spec.version);
    let project = project_id_of(port.namespace@);
    &&& is_secret_of(plan.secret, port, key)
    &&& is_consumer_of(plan.consumer, port, config)
    &&& is_route_of(
        plan.route,
        http_route_name(port.name@),
        hostname(port.name@, project, None, config.ingress_class@, config.dns_zone@),
        port,
        service,
        config,
    )
    &&& is_route_of(
        plan.route_key,
        http_route_key_name(port.name@),
        hostname(port.name@, project, Some(key), config.ingress_class@, config.dns_zone@),
        port,
        service,
        config,
    )
    &&& is_grant_of(plan.grant, grant_name(port), service, port.namespace@)
    &&& plan.status.auth_token@ == key
    &&& plan.status.endpoint_url@ == https_url(
        port_hostname(
            port.spec.network,
            port.spec.version,
            None,
            config.extension_name@,
            config.dns_zone@,
        ),
    )
    &&& plan.status.authenticated_endpoint_url@ == https_url(
        port_hostname(
            port.spec.network,
            port.spec.version,
            Some(key),
            config.extension_name@,
            config.dns_zone@,
        ),
    )
}

/// Builds everything that reconciling a port under a given key writes. It
/// fails only where the configured port of the backend is no integer.
pub fn plan_for_key(port: &Port, key: &str, config: &Config) -> (r: Result<ReconcilePlan, OperatorError>)
    requires
        has_dash(port.namespace@),
    ensures
        match r {
            Ok(plan) => is_plan_of(plan, *port, key@, *config),
            Err(e) => e is ParseIntError && i32_of(config.http_port@) is None,
        },
{
    let service: String = ogmios_service_name(&port.spec.network, &port.spec.version);
    let project: String = project_id(port.namespace.as_str());
    let route_name: String = get_http_route_name(port.name.as_str());
    let route_key_name: String = get_http_route_key_name(port.name.as_str());
    let host: String = crate::hostname::build_hostname(
        port.name.as_str(),
        project.as_str(),
        None,
        config.ingress_class.as_str(),
        config.dns_zone.as_str(),
    );
    let host_key: String = crate::hostname::build_hostname(
        port.name.as_str(),
        project.as_str(),
        Some(key),
        config.ingress_class.as_str(),
        config.dns_zone.as_str(),
    );
    let route: HttpRoute = match build_route(
        route_name.as_str(),
        host.as_str(),
        port,
        service.as_str(),
        config,
    ) {
        Ok(r) => r,
        Err(e) => {
            return Err(e);
        },
    };
    let route_key: HttpRoute = match build_route(
        route_key_name.as_str(),
        host_key.as_str(),
        port,
        service.as_str(),
        config,
    ) {
        Ok(r) => r,
        Err(e) => {
            return Err(e);
        },
    };
    let grant_name: String = build_grant_name(port);
    let grant: ReferenceGrant = build_grant(
        grant_name.as_str(),
        service.as_str(),
        port.namespace.as_str(),
    );
    let status: OgmiosPortStatus = build_status(
        &port.spec.network,
        port.spec.version,
        key,
        config.extension_name.as_str(),
        config.dns_zone.as_str(),
    );
    Ok(
        ReconcilePlan {
            secret: build_secret(port, key),
            consumer: build_consumer(port, config),
            route,
            route_key,
            grant,
            status,
        },
    )
}

/// Reconciles a port: derives its key and builds everything that is
/// written for it. It succeeds exactly when a key can be derived under the
/// configured salt and the configured port of the backend is an integer.
/// Where no key can be derived the error is that of the hash; otherwise it
/// is that of the port.
pub fn reconcile(port: &Port, config: &Config) -> (r: Result<ReconcilePlan, OperatorError>)
    requires
        has_dash(port.namespace@),
    ensures
        match r {
            Ok(plan) => is_plan_of(
                plan,
                *port,
                key_text(port.name@, port.namespace@, config.api_key_salt@),
                *config,
            ),
            Err(e) => if derivable(port.name@, port.namespace@, config.api_key_salt@) {
                e is ParseIntError
            } else {
                e is ArgonError
            },
        },
        r is Ok <==> derivable(port.name@, port.namespace@, config.api_key_salt@) && i32_of(
            config.http_port@,
        ) is Some,
        r is Ok ==> key_shaped(key_text(port.name@, port.namespace@, config.api_key_salt@)),
{
    match derive_key(port.name.as_str(), port.namespace.as_str(), config.api_key_salt.as_str()) {
        Ok(key) => plan_for_key(port, key.as_str(), config),
        Err(e) => Err(e),
    }
}

/// What follows a failed reconciliation: when to try again, and the labels
/// under which the failure is counted.
#[derive(Debug)]
pub struct Requeue {
    pub after_secs: u64,
    pub instance: String,
    pub error: String,
}

/// Decides what follows a failed reconciliation: another try after five
/// seconds, and a failure counted under the port's name and the kind of
/// the error.
pub fn error_policy(port: &Port, err: &OperatorError) -> (r: Requeue)
    ensures
        r.after_secs == 5,
        r.instance@ == port.name@,
        r.error@ == crate::error::kind_label(*err),
{
    Requeue { after_secs: 5, instance: port.name.clone(), error: err.metric_label() }
}

} // verus!
