use ogmios_gateway::limiter::Bucket;
use ogmios_gateway::port::{Network, OgmiosPortSpec, OgmiosPortStatus, Port};
use ogmios_gateway::registry::{
    apply_event, apply_to_limiter, apply_to_registry, build_hash_key, get_consumer, Consumer,
    PortEvent,
};
use ogmios_gateway::strmap::StrMap;

fn port(name: &str, network: Network, version: u8, tier: &str, token: Option<&str>) -> Port {
    Port {
        namespace: "prj-abc".to_string(),
        name: name.to_string(),
        uid: format!("uid-{}", name),
        spec: OgmiosPortSpec { network, version, throughput_tier: tier.to_string() },
        status: token.map(|t| OgmiosPortStatus {
            endpoint_url: String::new(),
            authenticated_endpoint_url: String::new(),
            auth_token: t.to_string(),
        }),
    }
}

#[test]
fn consumer_of_a_port() {
    let p = port("port1", Network::Preprod, 6, "gold", Some("dmtr_k"));
    let c = Consumer::from(&p);
    assert_eq!(c.namespace, "prj-abc");
    assert_eq!(c.port_name, "port1");
    assert_eq!(c.tier, "gold");
    assert_eq!(c.key, "dmtr_k");
    assert_eq!(c.hash_key, "preprod.6.dmtr_k");
    assert_eq!(c.to_string(), "prj-abc.port1");
}

#[test]
fn default_consumer_is_empty() {
    let c = Consumer::default();
    assert_eq!(c.namespace, "");
    assert_eq!(c.port_name, "");
    assert_eq!(c.tier, "");
    assert_eq!(c.key, "");
    assert_eq!(c.hash_key, "");
    assert_eq!(c.to_string(), ".");
}

#[test]
fn hash_key_joins_with_dots() {
    assert_eq!(build_hash_key("mainnet", "10", "dmtr_x"), "mainnet.10.dmtr_x");
}

#[test]
fn event_stream_leaves_the_updated_port_alone() {
    let mut consumers: StrMap<Consumer> = StrMap::new();
    let mut limiter: StrMap<Vec<Bucket>> = StrMap::new();
    limiter.insert("stale".to_string(), Vec::new());
    let a = port("a", Network::Mainnet, 6, "bronze", Some("dmtr_a"));
    let b = port("b", Network::Preview, 5, "bronze", Some("dmtr_b"));
    apply_event(&mut consumers, &mut limiter, &PortEvent::Restarted(vec![a, b]));
    assert_eq!(consumers.len(), 2);
    assert_eq!(limiter.len(), 0);
    assert!(get_consumer(&consumers, "mainnet", "6", "dmtr_a").is_some());
    assert!(get_consumer(&consumers, "preview", "5", "dmtr_b").is_some());

    limiter.insert("dmtr_a".to_string(), Vec::new());
    limiter.insert("dmtr_b".to_string(), Vec::new());
    let a2 = port("a", Network::Mainnet, 6, "gold", Some("dmtr_a"));
    apply_event(&mut consumers, &mut limiter, &PortEvent::Applied(a2));
    assert_eq!(consumers.len(), 2);
    assert!(!limiter.contains_key(&"dmtr_a".to_string()));
    assert!(limiter.contains_key(&"dmtr_b".to_string()));

    let b = port("b", Network::Preview, 5, "bronze", Some("dmtr_b"));
    apply_event(&mut consumers, &mut limiter, &PortEvent::Deleted(b));
    assert_eq!(consumers.len(), 1);
    assert_eq!(limiter.len(), 0);
    let left = get_consumer(&consumers, "mainnet", "6", "dmtr_a").unwrap();
    assert_eq!(left.tier, "gold");
    assert_eq!(left.port_name, "a");
    assert!(get_consumer(&consumers, "preview", "5", "dmtr_b").is_none());
}

#[test]
fn port_without_status_is_passed_over() {
    let mut consumers: StrMap<Consumer> = StrMap::new();
    let mut limiter: StrMap<Vec<Bucket>> = StrMap::new();
    limiter.insert("dmtr_a".to_string(), Vec::new());
    let fresh = port("a", Network::Mainnet, 6, "bronze", None);
    apply_event(&mut consumers, &mut limiter, &PortEvent::Applied(fresh));
    assert_eq!(consumers.len(), 0);
    assert_eq!(limiter.len(), 1);
    let fresh = port("a", Network::Mainnet, 6, "bronze", None);
    let ready = port("b", Network::Mainnet, 6, "bronze", Some("dmtr_b"));
    apply_event(&mut consumers, &mut limiter, &PortEvent::Restarted(vec![fresh, ready]));
    assert_eq!(consumers.len(), 1);
    assert_eq!(limiter.len(), 0);
    let gone = port("a", Network::Mainnet, 6, "bronze", None);
    apply_event(&mut consumers, &mut limiter, &PortEvent::Deleted(gone));
    assert_eq!(consumers.len(), 1);
}

#[test]
fn later_snapshot_entry_replaces_an_earlier_one() {
    let mut consumers: StrMap<Consumer> = StrMap::new();
    let mut limiter: StrMap<Vec<Bucket>> = StrMap::new();
    let first = port("a", Network::Mainnet, 6, "bronze", Some("dmtr_a"));
    let second = port("a", Network::Mainnet, 6, "silver", Some("dmtr_a"));
    apply_event(&mut consumers, &mut limiter, &PortEvent::Restarted(vec![first, second]));
    assert_eq!(consumers.len(), 1);
    assert_eq!(get_consumer(&consumers, "mainnet", "6", "dmtr_a").unwrap().tier, "silver");
}

#[test]
fn string_map_behaves_like_a_map() {
    let mut m: StrMap<u32> = StrMap::new();
    assert_eq!(m.len(), 0);
    m.insert("a".to_string(), 1);
    m.insert("b".to_string(), 2);
    m.insert("a".to_string(), 3);
    assert_eq!(m.len(), 2);
    assert_eq!(m.get(&"a".to_string()), Some(&3));
    assert_eq!(m.get(&"b".to_string()), Some(&2));
    assert_eq!(m.get(&"c".to_string()), None);
    m.remove(&"a".to_string());
    m.remove(&"zz".to_string());
    assert!(!m.contains_key(&"a".to_string()));
    assert_eq!(m.len(), 1);
    m.clear();
    assert_eq!(m.len(), 0);
}

#[test]
fn events_apply_to_either_map_alone() {
    let mut consumers: StrMap<Consumer> = StrMap::new();
    let mut limiter: StrMap<Vec<Bucket>> = StrMap::new();
    limiter.insert("dmtr_a".to_string(), Vec::new());
    limiter.insert("dmtr_b".to_string(), Vec::new());
    let applied = PortEvent::Applied(port("a", Network::Mainnet, 6, "gold", Some("dmtr_a")));
    apply_to_limiter(&mut limiter, &applied);
    assert!(!limiter.contains_key(&"dmtr_a".to_string()));
    assert_eq!(limiter.len(), 1);
    assert_eq!(consumers.len(), 0);
    apply_to_registry(&mut consumers, &applied);
    assert_eq!(consumers.len(), 1);
    let deleted = PortEvent::Deleted(port("a", Network::Mainnet, 6, "gold", Some("dmtr_a")));
    apply_to_registry(&mut consumers, &deleted);
    assert_eq!(consumers.len(), 0);
    assert_eq!(limiter.len(), 1);
    apply_to_limiter(&mut limiter, &PortEvent::Restarted(Vec::new()));
    assert_eq!(limiter.len(), 0);
}
