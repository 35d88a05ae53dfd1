use ogmios_gateway::limiter::Bucket;
use ogmios_gateway::pipe::{
    build_backend_url, http_labels, step, upgrade_answer, upgrade_headers, ws_labels, PipeAction,
    PipeEvent,
    PipeState, SWITCHING_PROTOCOLS,
};
use ogmios_gateway::port::{Network, OgmiosPortSpec, OgmiosPortStatus, Port};
use ogmios_gateway::proxy::{
    build_target, handle, routes_match, Config, Decision, Environment, MetricsRoute, Protocol,
    ProxyRequest,
};
use ogmios_gateway::registry::{apply_event, Consumer, PortEvent};
use ogmios_gateway::strmap::StrMap;
use ogmios_gateway::text::{
    decimal_string, eq_ignore_ascii_case, parse_unsigned, remove_all, same_text,
};

fn environment() -> Environment {
    Environment {
        proxy_addr: Some("0.0.0.0:8443".to_string()),
        proxy_namespace: None,
        proxy_tiers_path: Some("/etc/tiers.toml".to_string()),
        proxy_tiers_poll_interval: None,
        prometheus_addr: Some("0.0.0.0:9187".to_string()),
        ssl_crt_path: Some("/etc/tls/tls.crt".to_string()),
        ssl_key_path: Some("/etc/tls/tls.key".to_string()),
        ogmios_port: Some("1337".to_string()),
        ogmios_dns: Some("internal.svc.cluster.local".to_string()),
    }
}

fn config() -> Config {
    Config::new(&environment()).unwrap()
}

fn registry() -> StrMap<Consumer> {
    let mut consumers: StrMap<Consumer> = StrMap::new();
    let mut limiter: StrMap<Vec<Bucket>> = StrMap::new();
    let port = Port {
        namespace: "prj-abc".to_string(),
        name: "port1".to_string(),
        uid: "uid".to_string(),
        spec: OgmiosPortSpec {
            network: Network::Preprod,
            version: 6,
            throughput_tier: "gold".to_string(),
        },
        status: Some(OgmiosPortStatus {
            endpoint_url: String::new(),
            authenticated_endpoint_url: String::new(),
            auth_token: "dmtr_k".to_string(),
        }),
    };
    apply_event(&mut consumers, &mut limiter, &PortEvent::Applied(port));
    consumers
}

#[test]
fn healthz_answers_whatever_the_registry_holds() {
    let empty: StrMap<Consumer> = StrMap::new();
    let d = handle("GET", "/healthz", None, None, None, &config(), &empty);
    assert!(matches!(d, Decision::Healthz));
    assert_eq!(d.status_code(), Some(200));
    assert_eq!(d.body(), "pong");
    let d = handle("GET", "/healthz", Some("nonsense"), None, None, &config(), &registry());
    assert!(matches!(d, Decision::Healthz));
}

#[test]
fn other_methods_on_healthz_are_routed() {
    let d = handle("POST", "/healthz", Some("nonsense"), None, None, &config(), &registry());
    assert!(matches!(d, Decision::BadGateway));
    assert_eq!(d.status_code(), Some(502));
    assert_eq!(d.body(), "Invalid hostname");
}

#[test]
fn missing_host_is_a_bad_gateway() {
    let d = handle("GET", "/", None, None, None, &config(), &registry());
    assert!(matches!(d, Decision::BadGateway));
}

#[test]
fn unknown_key_is_unauthorized() {
    let d = handle(
        "GET",
        "/",
        Some("dmtr_other.preprod-v6.ogmios-v1.demeter.run"),
        None,
        None,
        &config(),
        &registry(),
    );
    assert!(matches!(d, Decision::Unauthorized));
    assert_eq!(d.status_code(), Some(401));
    assert_eq!(d.body(), "Unauthorized");
    let d = handle(
        "GET",
        "/",
        Some("preprod-v6.ogmios-v1.demeter.run"),
        None,
        None,
        &config(),
        &registry(),
    );
    assert!(matches!(d, Decision::Unauthorized));
}

#[test]
fn keyed_host_is_forwarded() {
    let d = handle(
        "GET",
        "/",
        Some("dmtr_k.preprod-v6.ogmios-v1.demeter.run"),
        Some("WebSocket"),
        Some("dmtr_ignored"),
        &config(),
        &registry(),
    );
    assert_eq!(d.status_code(), None);
    assert_eq!(d.body(), "");
    match d {
        Decision::Forward(req) => {
            assert_eq!(req.namespace, "ftr-ogmios-v1");
            assert_eq!(req.host, "preprod-v6.ogmios-v1.demeter.run");
            assert_eq!(req.instance, "ogmios-preprod-v6.internal.svc.cluster.local:1337");
            assert_eq!(req.protocol, Protocol::Websocket);
            let consumer = req.consumer.unwrap();
            assert_eq!(consumer.key, "dmtr_k");
            assert_eq!(consumer.tier, "gold");
        }
        other => panic!("expected a forward, got {:?}", other),
    }
}

#[test]
fn header_key_is_used_without_a_key_in_the_host() {
    let req = ProxyRequest::new(
        Some("preprod-v6.ogmios-v1.demeter.run"),
        Some("h2c"),
        Some("dmtr_k"),
        &config(),
        &registry(),
    )
    .unwrap();
    assert_eq!(req.host, "preprod-v6.ogmios-v1.demeter.run");
    assert_eq!(req.protocol, Protocol::Http);
    assert_eq!(req.consumer.unwrap().port_name, "port1");
}

#[test]
fn version_must_match_the_registry_text() {
    let req = ProxyRequest::new(
        Some("dmtr_k.preprod-v06.ogmios-v1.demeter.run"),
        None,
        None,
        &config(),
        &registry(),
    )
    .unwrap();
    assert!(req.consumer.is_none());
    assert_eq!(req.instance, "ogmios-preprod-v06.internal.svc.cluster.local:1337");
}

#[test]
fn key_without_a_dot_stays_in_the_metrics_host() {
    let req = ProxyRequest::new(Some("dmtr_abc-v1x"), None, None, &config(), &registry()).unwrap();
    assert_eq!(req.host, "dmtr_abc-v1x");
    assert_eq!(req.instance, "ogmios-c-v1.internal.svc.cluster.local:1337");
}

#[test]
fn target_is_built_from_network_and_version() {
    assert_eq!(build_target("mainnet", "6", "svc.local", 80), "ogmios-mainnet-v6.svc.local:80");
    assert_eq!(build_target("preview", "10", "x", 65535), "ogmios-preview-v10.x:65535");
}

#[test]
fn protocol_names() {
    assert_eq!(Protocol::Http.to_string(), "http");
    assert_eq!(Protocol::Websocket.to_string(), "websocket");
}

#[test]
fn metrics_listener_routes() {
    assert_eq!(routes_match("GET", "/metrics"), MetricsRoute::Metrics);
    assert_eq!(routes_match("POST", "/metrics"), MetricsRoute::NotFound);
    assert_eq!(routes_match("GET", "/"), MetricsRoute::NotFound);
}

#[test]
fn text_helpers() {
    assert!(same_text("abc", "abc"));
    assert!(!same_text("abc", "abd"));
    assert!(eq_ignore_ascii_case("WebSocket", "websocket"));
    assert!(eq_ignore_ascii_case("", ""));
    assert!(!eq_ignore_ascii_case("websockets", "websocket"));
    assert!(!eq_ignore_ascii_case("web_socket", "web-socket"));
    assert_eq!(decimal_string(0), "0");
    assert_eq!(decimal_string(7), "7");
    assert_eq!(decimal_string(10), "10");
    assert_eq!(decimal_string(255), "255");
    assert_eq!(decimal_string(u64::MAX), "18446744073709551615");
}

#[test]
fn labels_of_a_request() {
    let req = ProxyRequest::new(
        Some("dmtr_k.preprod-v6.ogmios-v1.demeter.run"),
        None,
        None,
        &config(),
        &registry(),
    )
    .unwrap();
    assert_eq!(
        ws_labels(&req),
        vec![
            "ftr-ogmios-v1",
            "ogmios-preprod-v6.internal.svc.cluster.local:1337",
            "preprod-v6.ogmios-v1.demeter.run",
            "prj-abc.port1",
            "gold"
        ]
    );
    assert_eq!(
        http_labels(&req, 200),
        vec![
            "ftr-ogmios-v1",
            "ogmios-preprod-v6.internal.svc.cluster.local:1337",
            "preprod-v6.ogmios-v1.demeter.run",
            "200",
            "http",
            "prj-abc.port1",
            "gold"
        ]
    );
    let anonymous = ProxyRequest::new(
        Some("preprod-v6.ogmios-v1.demeter.run"),
        None,
        None,
        &config(),
        &registry(),
    )
    .unwrap();
    assert_eq!(
        ws_labels(&anonymous),
        vec![
            "ftr-ogmios-v1",
            "ogmios-preprod-v6.internal.svc.cluster.local:1337",
            "preprod-v6.ogmios-v1.demeter.run",
            ".",
            ""
        ]
    );
}

#[test]
fn upgrade_headers_in_order() {
    assert_eq!(SWITCHING_PROTOCOLS, 101);
    let headers = upgrade_headers("s3pPLMBiTxaQ9kYGzzhZRbK+xOo=");
    assert_eq!(
        headers,
        vec![
            ("connection".to_string(), "Upgrade".to_string()),
            ("upgrade".to_string(), "websocket".to_string()),
            ("sec-websocket-accept".to_string(), "s3pPLMBiTxaQ9kYGzzhZRbK+xOo=".to_string()),
        ]
    );
    assert_eq!(build_backend_url("host:1337", "/?x=1"), "ws://host:1337/?x=1");
}

fn run(events: &[PipeEvent]) -> (PipeState, Vec<PipeAction>) {
    let mut state = PipeState::Upgrading;
    let mut actions = Vec::new();
    for event in events {
        let (next, action) = step(state, *event);
        state = next;
        actions.push(action);
    }
    (state, actions)
}

#[test]
fn connection_opens_and_closes_the_gauge_once() {
    let (state, actions) = run(&[
        PipeEvent::Connected,
        PipeEvent::ClientFrame,
        PipeEvent::TargetFrame,
        PipeEvent::TokensTaken,
        PipeEvent::HalfEnded,
        PipeEvent::HalfEnded,
        PipeEvent::ClientFrame,
    ]);
    assert_eq!(state, PipeState::Closed);
    assert_eq!(
        actions,
        vec![
            PipeAction::OpenGauge,
            PipeAction::Acquire,
            PipeAction::CountAndForwardToClient,
            PipeAction::ForwardToTarget,
            PipeAction::CloseGauge,
            PipeAction::Idle,
            PipeAction::Idle,
        ]
    );
}

#[test]
fn failed_connection_never_touches_the_gauge() {
    let (state, actions) = run(&[PipeEvent::ClientFrame, PipeEvent::ConnectFailed, PipeEvent::Connected]);
    assert_eq!(state, PipeState::Closed);
    assert_eq!(actions, vec![PipeAction::Idle, PipeAction::Idle, PipeAction::Idle]);
}

#[test]
fn frame_waits_for_its_tokens() {
    let (state, actions) = run(&[
        PipeEvent::Connected,
        PipeEvent::TokensTaken,
        PipeEvent::ClientFrame,
        PipeEvent::ClientFrame,
        PipeEvent::TokensTaken,
        PipeEvent::TokensTaken,
    ]);
    assert_eq!(state, PipeState::Open { held: false });
    assert_eq!(
        actions,
        vec![
            PipeAction::OpenGauge,
            PipeAction::Idle,
            PipeAction::Acquire,
            PipeAction::Idle,
            PipeAction::ForwardToTarget,
            PipeAction::Idle,
        ]
    );
}

#[test]
fn refused_frame_closes_the_connection() {
    let (state, actions) =
        run(&[PipeEvent::Connected, PipeEvent::ClientFrame, PipeEvent::LimiterFailed]);
    assert_eq!(state, PipeState::Closed);
    assert_eq!(actions, vec![PipeAction::OpenGauge, PipeAction::Acquire, PipeAction::CloseGauge]);
    let (state, actions) = run(&[PipeEvent::Connected, PipeEvent::LimiterFailed]);
    assert_eq!(state, PipeState::Open { held: false });
    assert_eq!(actions, vec![PipeAction::OpenGauge, PipeAction::Idle]);
}

#[test]
fn configuration_takes_defaults() {
    let c = config();
    assert_eq!(c.proxy_addr, "0.0.0.0:8443");
    assert_eq!(c.proxy_namespace, "ftr-ogmios-v1");
    assert_eq!(c.proxy_tiers_path, "/etc/tiers.toml");
    assert_eq!(c.proxy_tiers_poll_interval, 2);
    assert_eq!(c.prometheus_addr, "0.0.0.0:9187");
    assert_eq!(c.ogmios_port, 1337);
    assert_eq!(c.ogmios_dns, "internal.svc.cluster.local");
    assert_eq!(c.ssl_crt_path, "/etc/tls/tls.crt");
    assert_eq!(c.ssl_key_path, "/etc/tls/tls.key");
    let mut env = environment();
    env.proxy_namespace = Some("other".to_string());
    env.proxy_tiers_poll_interval = Some("30".to_string());
    let c = Config::new(&env).unwrap();
    assert_eq!(c.proxy_namespace, "other");
    assert_eq!(c.proxy_tiers_poll_interval, 30);
}

#[test]
fn configuration_names_the_first_fault() {
    let mut env = environment();
    env.ogmios_dns = None;
    assert_eq!(Config::new(&env).unwrap_err(), "OGMIOS_DNS must be set");
    env.ogmios_port = Some("70000".to_string());
    assert_eq!(Config::new(&env).unwrap_err(), "OGMIOS_PORT must a number");
    env.ogmios_port = None;
    assert_eq!(Config::new(&env).unwrap_err(), "OGMIOS_PORT must be set");
    env.ssl_key_path = None;
    assert_eq!(Config::new(&env).unwrap_err(), "SSL_KEY_PATH must be set");
    env.ssl_crt_path = None;
    assert_eq!(Config::new(&env).unwrap_err(), "SSL_CRT_PATH must be set");
    env.prometheus_addr = None;
    assert_eq!(Config::new(&env).unwrap_err(), "PROMETHEUS_ADDR must be set");
    env.proxy_tiers_poll_interval = Some("2s".to_string());
    assert_eq!(
        Config::new(&env).unwrap_err(),
        "PROXY_TIERS_POLL_INTERVAL must be a number in seconds. eg: 2"
    );
    env.proxy_tiers_path = None;
    assert_eq!(Config::new(&env).unwrap_err(), "PROXY_TIERS_PATH must be set");
    env.proxy_addr = None;
    assert_eq!(Config::new(&env).unwrap_err(), "PROXY_ADDR must be set");
}

#[test]
fn unsigned_numbers() {
    assert_eq!(parse_unsigned("0", 10), Some(0));
    assert_eq!(parse_unsigned("+10", 10), Some(10));
    assert_eq!(parse_unsigned("11", 10), None);
    assert_eq!(parse_unsigned("18446744073709551615", u64::MAX), Some(u64::MAX));
    assert_eq!(parse_unsigned("18446744073709551616", u64::MAX), None);
    assert_eq!(parse_unsigned("", 10), None);
    assert_eq!(parse_unsigned("+", 10), None);
    assert_eq!(parse_unsigned("-1", 10), None);
    assert_eq!(parse_unsigned("1 ", 10), None);
}

#[test]
fn upgrade_answer_derives_the_accept_key() {
    let headers = upgrade_answer(Some(b"dGhlIHNhbXBsZSBub25jZQ==")).unwrap();
    assert_eq!(headers.len(), 3);
    assert_eq!(headers[0], ("connection".to_string(), "Upgrade".to_string()));
    assert_eq!(headers[1], ("upgrade".to_string(), "websocket".to_string()));
    assert_eq!(
        headers[2],
        ("sec-websocket-accept".to_string(), "s3pPLMBiTxaQ9kYGzzhZRbK+xOo=".to_string())
    );
    assert!(upgrade_answer(None).is_none());
}

#[test]
fn every_occurrence_of_the_key_leaves_the_metrics_host() {
    let req = ProxyRequest::new(
        Some("dmtr_k.preprod-v6.dmtr_k.x"),
        None,
        None,
        &config(),
        &registry(),
    )
    .unwrap();
    assert_eq!(req.host, "preprod-v6.x");
    let copy = req.clone();
    assert_eq!(copy.host, req.host);
    assert_eq!(copy.instance, req.instance);
    assert_eq!(copy.namespace, req.namespace);
    assert_eq!(copy.protocol, req.protocol);
    assert_eq!(copy.consumer.unwrap().hash_key, "preprod.6.dmtr_k");
    assert_eq!(req.consumer.unwrap().key, "dmtr_k");
}

#[test]
fn patterns_are_taken_out_from_the_left() {
    assert_eq!(remove_all("aaa", "aa"), "a");
    assert_eq!(remove_all("abcabc", "bc"), "aa");
    assert_eq!(remove_all("abc", ""), "abc");
    assert_eq!(remove_all("ab", "abc"), "ab");
    assert_eq!(remove_all("abab", "ab"), "");
    assert_eq!(remove_all("xabay", "ab"), "xay");
}
