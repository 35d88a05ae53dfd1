use ogmios_gateway::billing::{
    build_query, build_query_url, classify_row, dcu_labels, extract_network, extract_project,
    signed_decimal_string, split_weights, RowAction,
};
use ogmios_gateway::error::OperatorError;
use ogmios_gateway::operator::{
    build_consumer, build_grant, build_route, build_secret, error_policy, get_acl_name,
    get_auth_name, get_http_route_key_name, get_http_route_name, http_route, kong_consumer,
    ogmios_service_name, parse_port, plan_for_key, reconcile, reference_grant, upsert, Config,
    Environment, Upsert,
};
use ogmios_gateway::port::{build_status, Network, OgmiosPortSpec, OgmiosPortStatus, Port};
use ogmios_gateway::text::split_text;

fn config() -> Config {
    Config {
        dns_zone: "demeter.run".to_string(),
        namespace: "ftr-ogmios-v1".to_string(),
        ingress_class: "ogmios-v1".to_string(),
        api_key_salt: "ogmios-salt".to_string(),
        extension_name: "ogmios-m1".to_string(),
        http_port: "1337".to_string(),
        metrics_delay: 30,
        prometheus_url: "http://prometheus/api/v1".to_string(),
    }
}

fn port() -> Port {
    Port {
        namespace: "prj-abc".to_string(),
        name: "port1".to_string(),
        uid: "uid-1".to_string(),
        spec: OgmiosPortSpec {
            network: Network::Preprod,
            version: 6,
            throughput_tier: "gold".to_string(),
        },
        status: None,
    }
}

#[test]
fn network_names() {
    assert_eq!(Network::Mainnet.to_string(), "mainnet");
    assert_eq!(Network::Preprod.to_string(), "preprod");
    assert_eq!(Network::Preview.to_string(), "preview");
    assert_eq!(Network::Sanchonet.to_string(), "sanchonet");
    assert_eq!(Network::from_name("preview"), Some(Network::Preview));
    assert_eq!(Network::from_name("Preview"), None);
}

#[test]
fn status_holds_both_urls_and_the_token() {
    let status = build_status(&Network::Preprod, 6, "dmtr_k", "ogmios-m1", "demeter.run");
    assert_eq!(status.endpoint_url, "https://preprod-v6.ogmios-m1.demeter.run");
    assert_eq!(
        status.authenticated_endpoint_url,
        "https://dmtr_k.preprod-v6.ogmios-m1.demeter.run"
    );
    assert_eq!(status.auth_token, "dmtr_k");
}

#[test]
fn resource_kinds() {
    let k = kong_consumer();
    assert_eq!(k.group, "configuration.konghq.com");
    assert_eq!(k.version, "v1");
    assert_eq!(k.api_version, "configuration.konghq.com/v1");
    assert_eq!(k.kind, "KongConsumer");
    assert_eq!(k.plural, "kongconsumers");
    let r = http_route();
    assert_eq!(r.api_version, "gateway.networking.k8s.io/v1");
    assert_eq!(r.kind, "HTTPRoute");
    let g = reference_grant();
    assert_eq!(g.api_version, "gateway.networking.k8s.io/v1beta1");
    assert_eq!(g.kind, "ReferenceGrant");
}

#[test]
fn names_of_the_artefacts() {
    assert_eq!(get_auth_name("port1"), "ogmios-auth-port1");
    assert_eq!(get_acl_name("port1"), "ogmios-acl-port1");
    assert_eq!(get_http_route_name("port1"), "ogmios-http-route-port1");
    assert_eq!(get_http_route_key_name("port1"), "ogmios-http-route-key-port1");
    assert_eq!(ogmios_service_name(&Network::Mainnet, &10), "ogmios-mainnet-v10");
}

#[test]
fn secret_and_consumer_of_a_port() {
    let secret = build_secret(&port(), "dmtr_k");
    assert_eq!(secret.name, "ogmios-auth-port1");
    assert_eq!(secret.credential_label, "key-auth");
    assert_eq!(secret.type_, "Opaque");
    assert_eq!(secret.key, "dmtr_k");
    assert_eq!(secret.owner.api_version, "demeter.run/v1alpha1");
    assert_eq!(secret.owner.kind, "OgmiosPort");
    assert_eq!(secret.owner.name, "port1");
    assert_eq!(secret.owner.uid, "uid-1");
    let consumer = build_consumer(&port(), &config());
    assert_eq!(consumer.name, "ogmios-auth-port1");
    assert_eq!(consumer.ingress_class, "ogmios-v1");
    assert_eq!(consumer.username, "prj-abc.port1");
    assert_eq!(consumer.credentials, vec!["ogmios-auth-port1"]);
    assert_eq!(consumer.owner.uid, "uid-1");
}

#[test]
fn route_and_grant_of_a_port() {
    let route = build_route("r", "h.example", &port(), "ogmios-preprod-v6", &config()).unwrap();
    assert_eq!(route.name, "r");
    assert_eq!(route.instance_label, "r");
    assert_eq!(route.tenancy_label, "project");
    assert_eq!(route.kind_label, "http-route");
    assert_eq!(route.plugins, "ogmios-auth-port1,ogmios-acl-port1");
    assert_eq!(route.hostname, "h.example");
    assert_eq!(route.parent_name, "ogmios-v1");
    assert_eq!(route.parent_namespace, "ftr-ogmios-v1");
    assert_eq!(route.backend_kind, "Service");
    assert_eq!(route.backend_name, "ogmios-preprod-v6");
    assert_eq!(route.backend_port, 1337);
    assert_eq!(route.backend_namespace, "ftr-ogmios-v1");
    let grant = build_grant("g", "ogmios-preprod-v6", "prj-abc");
    assert_eq!(grant.name, "g");
    assert_eq!(grant.from_group, "gateway.networking.k8s.io");
    assert_eq!(grant.from_kind, "HTTPRoute");
    assert_eq!(grant.from_namespace, "prj-abc");
    assert_eq!(grant.to_group, "");
    assert_eq!(grant.to_kind, "Service");
    assert_eq!(grant.to_name, "ogmios-preprod-v6");
}

#[test]
fn port_texts() {
    assert_eq!(parse_port("1337").unwrap(), 1337);
    assert_eq!(parse_port("+80").unwrap(), 80);
    assert_eq!(parse_port("-1").unwrap(), -1);
    assert_eq!(parse_port("-0").unwrap(), 0);
    assert_eq!(parse_port("007").unwrap(), 7);
    assert_eq!(parse_port("2147483647").unwrap(), i32::MAX);
    assert_eq!(parse_port("-2147483648").unwrap(), i32::MIN);
    for bad in ["", "+", "-", "2147483648", "-2147483649", "12a", " 12", "1_000", "99999999999999999999999"] {
        match parse_port(bad) {
            Err(OperatorError::ParseIntError(_)) => {}
            other => panic!("expected a parse error for {:?}, got {:?}", bad, other),
        }
    }
}

#[test]
fn plan_of_a_port() {
    let plan = plan_for_key(&port(), "dmtr_k", &config()).unwrap();
    assert_eq!(plan.secret.key, "dmtr_k");
    assert_eq!(plan.consumer.username, "prj-abc.port1");
    assert_eq!(plan.route.name, "ogmios-http-route-port1");
    assert_eq!(plan.route.hostname, "port1-abc.ogmios-v1.demeter.run");
    assert_eq!(plan.route_key.name, "ogmios-http-route-key-port1");
    assert_eq!(plan.route_key.hostname, "dmtr_k.port1-abc.ogmios-v1.demeter.run");
    assert_eq!(plan.route.backend_name, "ogmios-preprod-v6");
    assert_eq!(plan.grant.name, "prj-abc-port1-http");
    assert_eq!(plan.grant.to_name, "ogmios-preprod-v6");
    assert_eq!(plan.status.auth_token, "dmtr_k");
    assert_eq!(plan.status.endpoint_url, "https://preprod-v6.ogmios-m1.demeter.run");
}

#[test]
fn reconcile_derives_the_key() {
    let plan = reconcile(&port(), &config()).unwrap();
    let key = ogmios_gateway::credential::derive_key("port1", "prj-abc", "ogmios-salt").unwrap();
    assert_eq!(plan.secret.key, key);
    assert_eq!(plan.status.auth_token, key);
    assert_eq!(
        plan.status.authenticated_endpoint_url,
        format!("https://{}.preprod-v6.ogmios-m1.demeter.run", key)
    );
    let mut bad = config();
    bad.http_port = "http".to_string();
    assert!(matches!(reconcile(&port(), &bad), Err(OperatorError::ParseIntError(_))));
    let mut bad = config();
    bad.api_key_salt = "salt".to_string();
    assert!(matches!(reconcile(&port(), &bad), Err(OperatorError::ArgonError(_))));
}

#[test]
fn failures_are_retried_after_five_seconds() {
    let r = error_policy(&port(), &OperatorError::KubeError("gone".to_string()));
    assert_eq!(r.after_secs, 5);
    assert_eq!(r.instance, "port1");
    assert_eq!(r.error, "kubeerror");
    assert_eq!(upsert(true), Upsert::Patch);
    assert_eq!(upsert(false), Upsert::Create);
}

#[test]
fn billing_query() {
    assert_eq!(
        build_query(30, 1700000000),
        "sum by (consumer, route) (increase(ogmios_proxy_ws_total_frame[30s] @ 1700000000))"
    );
    assert_eq!(
        build_query_url("http://prometheus/api/v1", "up"),
        "http://prometheus/api/v1/query?query=up"
    );
    assert_eq!(signed_decimal_string(-5), "-5");
    assert_eq!(signed_decimal_string(0), "0");
    assert_eq!(signed_decimal_string(i64::MIN), "-9223372036854775808");
    assert_eq!(signed_decimal_string(i64::MAX), "9223372036854775807");
}

#[test]
fn project_of_a_consumer_label() {
    assert_eq!(extract_project("prj-abc.port1").as_deref(), Some("abc"));
    assert_eq!(extract_project("prj-abc.def.port1").as_deref(), Some("abc.def"));
    assert_eq!(extract_project("xprj-a.b").as_deref(), Some("a"));
    assert_eq!(extract_project("prj-.x.y").as_deref(), Some(".x"));
    assert_eq!(extract_project("prj-a.\nprj-b.c").as_deref(), Some("b"));
    assert_eq!(extract_project("prj-abc."), None);
    assert_eq!(extract_project("prj-.x"), None);
    assert_eq!(extract_project("abc.port1"), None);
    assert_eq!(extract_project(""), None);
}

#[test]
fn network_of_a_route_label() {
    assert_eq!(extract_network("mainnet-v6.ogmios-m1.demeter.run").as_deref(), Some("mainnet"));
    assert_eq!(extract_network("cardano-preview-v6.x").as_deref(), Some("cardano-preview"));
    assert_eq!(extract_network("a-b-").as_deref(), Some("a"));
    assert_eq!(extract_network(".net-x").as_deref(), Some("net"));
    assert_eq!(extract_network("--x").as_deref(), Some("-"));
    assert_eq!(extract_network("mainnet"), None);
    assert_eq!(extract_network("mainnet-"), None);
    assert_eq!(extract_network("a-\n"), None);
    assert_eq!(extract_network("-x"), None);
}

#[test]
fn rows_of_the_answer() {
    let weighted = vec!["mainnet".to_string(), "preprod".to_string()];
    let row = classify_row(false, Some("prj-abc.port1"), Some("mainnet-v6.x"), &weighted);
    match row {
        RowAction::Count { project, network } => {
            assert_eq!(project, "abc");
            assert_eq!(network, "mainnet");
        }
        other => panic!("expected a charge, got {:?}", other),
    }
    let row = classify_row(false, Some("prj-abc.port1"), Some("preview-v6.x"), &weighted);
    match row {
        RowAction::MissingWeight { network } => assert_eq!(network, "preview"),
        other => panic!("expected a missing weight, got {:?}", other),
    }
    assert!(matches!(
        classify_row(true, Some("prj-abc.port1"), Some("mainnet-v6.x"), &weighted),
        RowAction::Skip
    ));
    assert!(matches!(classify_row(false, None, Some("mainnet-v6.x"), &weighted), RowAction::Skip));
    assert!(matches!(classify_row(false, Some("prj-abc.port1"), None, &weighted), RowAction::Skip));
    assert!(matches!(
        classify_row(false, Some("abc.port1"), Some("mainnet-v6.x"), &weighted),
        RowAction::Skip
    ));
    assert!(matches!(
        classify_row(false, Some("prj-abc.port1"), Some("mainnet"), &weighted),
        RowAction::Skip
    ));
    assert_eq!(
        dcu_labels("abc", "mainnet"),
        vec!["abc", "OgmiosPort-mainnet", "ogmiosports.demeter.run", "proxy"]
    );
}

#[test]
fn texts_split_at_every_separator() {
    assert_eq!(split_text("a,b", ','), vec!["a", "b"]);
    assert_eq!(split_text("", ','), vec![""]);
    assert_eq!(split_text(",", ','), vec!["", ""]);
    assert_eq!(split_text("a,,b,", ','), vec!["a", "", "b", ""]);
    assert_eq!(split_text("abc", ','), vec!["abc"]);
}

#[test]
fn weights_are_names_and_numbers() {
    assert_eq!(
        split_weights("mainnet=5,preprod=2.5").unwrap(),
        vec![
            ("mainnet".to_string(), "5".to_string()),
            ("preprod".to_string(), "2.5".to_string())
        ]
    );
    assert_eq!(
        split_weights("a=1=2").unwrap(),
        vec![("a".to_string(), "1".to_string())]
    );
    assert_eq!(split_weights("=").unwrap(), vec![(String::new(), String::new())]);
    assert!(split_weights("").is_none());
    assert!(split_weights("mainnet=5,preprod").is_none());
    assert!(split_weights("mainnet=5,").is_none());
}

fn environment() -> Environment {
    Environment {
        dns_zone: None,
        namespace: None,
        ingress_class: None,
        api_key_salt: None,
        extension_name: None,
        http_port: None,
        metrics_delay: Some("30".to_string()),
        prometheus_url: Some("http://prometheus/api/v1".to_string()),
    }
}

#[test]
fn operator_configuration_takes_defaults() {
    let c = Config::from_env(&environment()).unwrap();
    assert_eq!(c.dns_zone, "demeter.run");
    assert_eq!(c.namespace, "ftr-ogmios-v1");
    assert_eq!(c.ingress_class, "ogmios-v1");
    assert_eq!(c.api_key_salt, "ogmios-salt");
    assert_eq!(c.extension_name, "ogmios-m1");
    assert_eq!(c.http_port, "1337");
    assert_eq!(c.metrics_delay, 30);
    assert_eq!(c.prometheus_url, "http://prometheus/api/v1");
    let mut env = environment();
    env.dns_zone = Some("example.org".to_string());
    env.api_key_salt = Some("pepper-and-salt".to_string());
    let c = Config::from_env(&env).unwrap();
    assert_eq!(c.dns_zone, "example.org");
    assert_eq!(c.api_key_salt, "pepper-and-salt");
}

#[test]
fn operator_configuration_names_the_first_fault() {
    let mut env = environment();
    env.prometheus_url = None;
    assert_eq!(Config::from_env(&env).unwrap_err(), "PROMETHEUS_URL must be set");
    env.metrics_delay = Some("soon".to_string());
    assert_eq!(Config::from_env(&env).unwrap_err(), "METRICS_DELAY must be a number");
    env.metrics_delay = None;
    assert_eq!(Config::from_env(&env).unwrap_err(), "METRICS_DELAY must be set");
}

#[test]
fn default_status_is_empty() {
    let status = OgmiosPortStatus::default();
    assert_eq!(status.endpoint_url, "");
    assert_eq!(status.authenticated_endpoint_url, "");
    assert_eq!(status.auth_token, "");
}
