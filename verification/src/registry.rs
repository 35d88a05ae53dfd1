//! The port registry: the consumers that the proxy admits, keyed by
//! `{network}.{version}.{key}`, and how a watch event changes the registry
//! and the rate-limiter cache beside it.

use vstd::prelude::*;
use vstd::string::*;
use crate::port::{lemma_network_name, network_name, Port};
use crate::strmap::StrMap;
use crate::text::{decimal, decimal_string, lemma_decimal_digits};

verus! {

/// The proxy's view of a port: who it belongs to, its tier and its key.
#[derive(Debug)]
pub struct Consumer {
    pub namespace: String,
    pub port_name: String,
    pub tier: String,
    pub key: String,
    pub hash_key: String,
}

/// A consumer as plain text.
pub struct ConsumerView {
    pub namespace: Seq<char>,
    pub port_name: Seq<char>,
    pub tier: Seq<char>,
    pub key: Seq<char>,
    pub hash_key: Seq<char>,
}

impl View for Consumer {
    type V = ConsumerView;

    open spec fn view(&self) -> ConsumerView {
        ConsumerView {
            namespace: self.namespace@,
            port_name: self.port_name@,
            tier: self.tier@,
            key: self.key@,
            hash_key: self.hash_key@,
        }
    }
}

impl Clone for Consumer {
    fn clone(&self) -> (r: Self)
        ensures
            r == *self,
    {
        Consumer {
            namespace: self.namespace.clone(),
            port_name: self.port_name.clone(),
            tier: self.tier.clone(),
            key: self.key.clone(),
            hash_key: self.hash_key.clone(),
        }
    }
}

impl Default for Consumer {
    /// The consumer of an unauthenticated request: every field empty.
    fn default() -> (r: Self)
        ensures
            r@ == (ConsumerView {
                namespace: Seq::<char>::empty(),
                port_name: Seq::<char>::empty(),
                tier: Seq::<char>::empty(),
                key: Seq::<char>::empty(),
                hash_key: Seq::<char>::empty(),
            }),
    {
        Consumer {
            namespace: String::new(),
            port_name: String::new(),
            tier: String::new(),
            key: String::new(),
            hash_key: String::new(),
        }
    }
}

/// The registry key of a network, a version and a token:
/// `{network}.{version}.{key}`.
pub open spec fn hash_key_of(network: Seq<char>, version: Seq<char>, key: Seq<char>) -> Seq<char> {
    network + seq!['.'] + version + seq!['.'] + key
}

/// Builds a registry key.
pub fn build_hash_key(network: &str, version: &str, key: &str) -> (r: String)
    ensures
        r@ == hash_key_of(network@, version@, key@),
{
    proof {
        reveal_strlit(".");
    }
    assert("."@ =~= seq!['.']);
    let mut out: String = String::from_str(network);
    out.append(".");
    out.append(version);
    out.append(".");
    out.append(key);
    out
}

/// The consumer of a port that has a status.
pub open spec fn consumer_of(port: Port) -> ConsumerView
    recommends
        port.status is Some,
{
    let token = port.status->0.auth_token@;
    ConsumerView {
        namespace: port.namespace@,
        port_name: port.name@,
        tier: port.spec.throughput_tier@,
        key: token,
        hash_key: hash_key_of(
            network_name(port.spec.network),
            decimal(port.spec.version as nat),
            token,
        ),
    }
}

/// The label of a consumer in metrics: `{namespace}.{port_name}`.
pub open spec fn consumer_label(c: ConsumerView) -> Seq<char> {
    c.namespace + seq!['.'] + c.port_name
}

impl Consumer {
    /// The consumer of a port. The port must have a status: its token is
    /// the consumer's key.
    pub fn from(port: &Port) -> (r: Consumer)
        requires
            port.status is Some,
        ensures
            r@ == consumer_of(*port),
    {
        let network: String = port.spec.network.to_string();
        let version: String = decimal_string(port.spec.version as u64);
        let key: String = match &port.status {
            Some(status) => status.auth_token.clone(),
            None => String::new(),
        };
        let hash_key: String = build_hash_key(network.as_str(), version.as_str(), key.as_str());
        Consumer {
            namespace: port.namespace.clone(),
            port_name: port.name.clone(),
            tier: port.spec.throughput_tier.clone(),
            key,
            hash_key,
        }
    }

    /// The label of the consumer in metrics: `{namespace}.{port_name}`.
    pub fn to_string(&self) -> (r: String)
        ensures
            r@ == consumer_label(self@),
    {
        proof {
            reveal_strlit(".");
        }
        assert("."@ =~= seq!['.']);
        let mut out: String = self.namespace.clone();
        out.append(".");
        out.append(self.port_name.as_str());
        out
    }
}

/// What the watch over all ports reports.
#[derive(Debug)]
pub enum PortEvent {
    /// The watch began anew: these are all the ports there are.
    Restarted(Vec<Port>),
    /// A port was created or changed.
    Applied(Port),
    /// A port was deleted.
    Deleted(Port),
}

/// The registry as plain text.
pub open spec fn views(m: Map<Seq<char>, Consumer>) -> Map<Seq<char>, ConsumerView> {
    m.map_values(|c: Consumer| c@)
}

/// The registry that a snapshot of ports gives: one consumer for each port
/// with a status, a later port replacing an earlier one under the same key.
pub open spec fn snapshot(ports: Seq<Port>) -> Map<Seq<char>, ConsumerView>
    decreases ports.len(),
{
    if ports.len() == 0 {
        Map::empty()
    } else {
        let rest = snapshot(ports.drop_last());
        let port = ports.last();
        if port.status is Some {
            rest.insert(consumer_of(port).hash_key, consumer_of(port))
        } else {
            rest
        }
    }
}

/// The registry after an event. A snapshot replaces it; an applied port
/// with a status is entered under its key, one without is passed over; a
/// deleted port leaves.
pub open spec fn registry_after(
    before: Map<Seq<char>, ConsumerView>,
    event: PortEvent,
) -> Map<Seq<char>, ConsumerView> {
    match event {
        PortEvent::Restarted(ports) => snapshot(ports@),
        PortEvent::Applied(port) => if port.status is Some {
            before.insert(consumer_of(port).hash_key, consumer_of(port))
        } else {
            before
        },
        PortEvent::Deleted(port) => if port.status is Some {
            before.remove(consumer_of(port).hash_key)
        } else {
            before
        },
    }
}

/// The rate-limiter cache after an event. A snapshot empties it; an applied
/// or deleted port with a status loses the entry under its key.
pub open spec fn limiter_after<B>(before: Map<Seq<char>, B>, event: PortEvent) -> Map<
    Seq<char>,
    B,
> {
    match event {
        PortEvent::Restarted(ports) => Map::empty(),
        PortEvent::Applied(port) => if port.status is Some {
            before.remove(consumer_of(port).key)
        } else {
            before
        },
        PortEvent::Deleted(port) => if port.status is Some {
            before.remove(consumer_of(port).key)
        } else {
            before
        },
    }
}

/// Every consumer stands under its own registry key.
pub open spec fn keyed_by_hash(m: Map<Seq<char>, ConsumerView>) -> bool {
    forall|k: Seq<char>| m.contains_key(k) ==> (#[trigger] m[k]).hash_key == k
}

/// The consumer registered for a network, a version and a token.
pub fn get_consumer(consumers: &StrMap<Consumer>, network: &str, version: &str, key: &str) -> (r:
    Option<Consumer>)
    requires
        consumers.wf(),
    ensures
        match r {
            Some(c) => views(consumers@).contains_key(hash_key_of(network@, version@, key@))
                && c@ == views(consumers@)[hash_key_of(network@, version@, key@)],
            None => !views(consumers@).contains_key(hash_key_of(network@, version@, key@)),
        },
{
    let hash_key: String = build_hash_key(network, version, key);
    match consumers.get(&hash_key) {
        Some(c) => Some(c.clone()),
        None => None,
    }
}

/// Replaces the registry by a snapshot of ports.
fn load_snapshot(consumers: &mut StrMap<Consumer>, ports: &Vec<Port>)
    ensures
        final(consumers).wf(),
        views(final(consumers)@) == snapshot(ports@),
{
    consumers.clear();
    assert(views(consumers@) =~= snapshot(ports@.subrange(0, 0)));
    let mut i: usize = 0;
    while i < ports.len()
        invariant
            i <= ports.len(),
            consumers.wf(),
            views(consumers@) == snapshot(ports@.subrange(0, i as int)),
        decreases ports.len() - i,
    {
        let ghost before = consumers@;
        assert(ports@.subrange(0, i + 1).drop_last() =~= ports@.subrange(0, i as int));
        if ports[i].status.is_some() {
            let consumer: Consumer = Consumer::from(&ports[i]);
            consumers.insert(consumer.hash_key.clone(), consumer);
            assert(views(consumers@) =~= views(before).insert(
                consumer_of(ports@[i as int]).hash_key,
                consumer_of(ports@[i as int]),
            ));
        }
        i = i + 1;
    }
    assert(ports@.subrange(0, ports@.len() as int) =~= ports@);
}

/// Applies a watch event to the registry.
pub fn apply_to_registry(consumers: &mut StrMap<Consumer>, event: &PortEvent)
    requires
        old(consumers).wf(),
    ensures
        final(consumers).wf(),
        views(final(consumers)@) == registry_after(views(old(consumers)@), *event),
{
    match event {
        PortEvent::Restarted(ports) => {
            load_snapshot(consumers, ports);
        },
        PortEvent::Applied(port) => {
            if port.status.is_some() {
                let consumer: Consumer = Consumer::from(port);
                consumers.insert(consumer.hash_key.clone(), consumer);
                assert(views(consumers@) =~= views(old(consumers)@).insert(
                    consumer_of(*port).hash_key,
                    consumer_of(*port),
                ));
            }
        },
        PortEvent::Deleted(port) => {
            if port.status.is_some() {
                let consumer: Consumer = Consumer::from(port);
                consumers.remove(&consumer.hash_key);
                assert(views(consumers@) =~= views(old(consumers)@).remove(
                    consumer_of(*port).hash_key,
                ));
            }
        },
    }
}

/// Applies a watch event to the rate-limiter cache.
pub fn apply_to_limiter<B>(limiter: &mut StrMap<B>, event: &PortEvent)
    requires
        old(limiter).wf(),
    ensures
        final(limiter).wf(),
        final(limiter)@ == limiter_after(old(limiter)@, *event),
{
    match event {
        PortEvent::Restarted(ports) => {
            limiter.clear();
        },
        PortEvent::Applied(port) => {
            match &port.status {
                Some(status) => {
                    limiter.remove(&status.auth_token);
                },
                None => {},
            }
        },
        PortEvent::Deleted(port) => {
            match &port.status {
                Some(status) => {
                    limiter.remove(&status.auth_token);
                },
                None => {},
            }
        },
    }
}

/// Applies a watch event to the registry and to the rate-limiter cache.
pub fn apply_event<B>(
    consumers: &mut StrMap<Consumer>,
    limiter: &mut StrMap<B>,
    event: &PortEvent,
)
    requires
        old(consumers).wf(),
        old(limiter).wf(),
    ensures
        final(consumers).wf(),
        final(limiter).wf(),
        views(final(consumers)@) == registry_after(views(old(consumers)@), *event),
        final(limiter)@ == limiter_after(old(limiter)@, *event),
{
    apply_to_limiter(limiter, event);
    apply_to_registry(consumers, event);
}

/// A snapshot holds each consumer under its own key.
pub proof fn lemma_snapshot_keyed(ports: Seq<Port>)
    ensures
        keyed_by_hash(snapshot(ports)),
    decreases ports.len(),
{
    if ports.len() > 0 {
        lemma_snapshot_keyed(ports.drop_last());
    }
}

/// An event keeps every consumer under its own key.
pub proof fn lemma_event_keeps_keys(before: Map<Seq<char>, ConsumerView>, event: PortEvent)
    requires
        keyed_by_hash(before),
    ensures
        keyed_by_hash(registry_after(before, event)),
{
    match event {
        PortEvent::Restarted(ports) => {
            lemma_snapshot_keyed(ports@);
        },
        PortEvent::Applied(port) => {},
        PortEvent::Deleted(port) => {},
    }
}

/// After a snapshot the rate-limiter cache is empty, and after a port with
/// a status was applied or deleted the cache holds nothing under its key: no
/// bucket set is older than the event that touched its port.
pub proof fn lemma_event_invalidates_limiter<B>(before: Map<Seq<char>, B>, event: PortEvent)
    ensures
        match event {
            PortEvent::Restarted(ports) => limiter_after(before, event) == Map::<
                Seq<char>,
                B,
            >::empty(),
            PortEvent::Applied(port) => port.status is Some ==> !limiter_after(
                before,
                event,
            ).contains_key(consumer_of(port).key),
            PortEvent::Deleted(port) => port.status is Some ==> !limiter_after(
                before,
                event,
            ).contains_key(consumer_of(port).key),
        },
        forall|k: Seq<char>| #[trigger]
            limiter_after(before, event).contains_key(k) ==> before.contains_key(k)
                && limiter_after(before, event)[k] == before[k],
{
}

/// After a port was deleted the registry holds nothing under its key.
pub proof fn lemma_deleted_port_leaves(before: Map<Seq<char>, ConsumerView>, port: Port)
    requires
        port.status is Some,
    ensures
        !registry_after(before, PortEvent::Deleted(port)).contains_key(consumer_of(port).hash_key),
{
}

/// What follows the first full stop of a text; nothing where it has none.
pub open spec fn after_first_dot(s: Seq<char>) -> Seq<char>
    decreases s.len(),
{
    if s.len() == 0 {
        s
    } else if s[0] == '.' {
        s.drop_first()
    } else {
        after_first_dot(s.drop_first())
    }
}

/// The key that a registry key ends in: what follows its second full stop.
pub open spec fn key_part(hash_key: Seq<char>) -> Seq<char> {
    after_first_dot(after_first_dot(hash_key))
}

/// No full stop stands in the text.
pub open spec fn dot_free(s: Seq<char>) -> bool {
    forall|i: int| 0 <= i < s.len() ==> #[trigger] s[i] != '.'
}

/// The registry key of the consumer ends in its key.
pub open spec fn well_keyed(c: ConsumerView) -> bool {
    key_part(c.hash_key) == c.key
}

/// Every consumer stands under its own registry key, which ends in its key.
pub open spec fn registry_wf(m: Map<Seq<char>, ConsumerView>) -> bool {
    &&& keyed_by_hash(m)
    &&& forall|k: Seq<char>| m.contains_key(k) ==> well_keyed(#[trigger] m[k])
}

/// Every bucket set of the cache stands under the key of a consumer of
/// the registry.
pub open spec fn cache_backed<B>(
    cache: Map<Seq<char>, B>,
    registry: Map<Seq<char>, ConsumerView>,
) -> bool {
    forall|k: Seq<char>| #[trigger]
        cache.contains_key(k) ==> exists|h: Seq<char>|
            registry.contains_key(h) && (#[trigger] registry[h]).key == k
}

/// After a head without a full stop and a full stop comes the rest.
pub proof fn lemma_after_first_dot(head: Seq<char>, rest: Seq<char>)
    requires
        dot_free(head),
    ensures
        after_first_dot(head + seq!['.'] + rest) == rest,
    decreases head.len(),
{
    let s = head + seq!['.'] + rest;
    if head.len() == 0 {
        assert(s.drop_first() =~= rest);
    } else {
        assert(s[0] == head[0]);
        assert(s.drop_first() =~= head.drop_first() + seq!['.'] + rest);
        lemma_after_first_dot(head.drop_first(), rest);
    }
}

/// A registry key built from a network and a version without full stops
/// ends in the key it was built from.
pub proof fn lemma_key_part(network: Seq<char>, version: Seq<char>, key: Seq<char>)
    requires
        dot_free(network),
        dot_free(version),
    ensures
        key_part(hash_key_of(network, version, key)) == key,
{
    let tail = version + seq!['.'] + key;
    assert(hash_key_of(network, version, key) =~= network + seq!['.'] + tail);
    lemma_after_first_dot(network, tail);
    lemma_after_first_dot(version, key);
}

/// The consumer of a port is well keyed.
pub proof fn lemma_consumer_well_keyed(port: Port)
    ensures
        well_keyed(consumer_of(port)),
{
    let network = network_name(port.spec.network);
    let version = decimal(port.spec.version as nat);
    lemma_network_name(port.spec.network);
    lemma_decimal_digits(port.spec.version as nat);
    assert(dot_free(network)) by {
        assert forall|i: int| 0 <= i < network.len() implies #[trigger] network[i] != '.' by {
            assert(crate::text::is_label(network[i]));
        }
    }
    assert(dot_free(version)) by {
        assert forall|i: int| 0 <= i < version.len() implies #[trigger] version[i] != '.' by {
            assert(crate::text::is_digit(version[i]));
        }
    }
    lemma_key_part(network, version, port.status->0.auth_token@);
}

/// A snapshot is a well-formed registry.
pub proof fn lemma_snapshot_wf(ports: Seq<Port>)
    ensures
        registry_wf(snapshot(ports)),
    decreases ports.len(),
{
    if ports.len() > 0 {
        lemma_snapshot_wf(ports.drop_last());
        lemma_consumer_well_keyed(ports.last());
    }
}

/// An event keeps the registry well formed.
pub proof fn lemma_event_keeps_registry_wf(before: Map<Seq<char>, ConsumerView>, event: PortEvent)
    requires
        registry_wf(before),
    ensures
        registry_wf(registry_after(before, event)),
{
    match event {
        PortEvent::Restarted(ports) => {
            lemma_snapshot_wf(ports@);
        },
        PortEvent::Applied(port) => {
            lemma_consumer_well_keyed(port);
        },
        PortEvent::Deleted(port) => {},
    }
}

/// The rate-limiter cache never outlives the registry: where every bucket
/// set stood under the key of a registered consumer before an event, it
/// does so after it.
pub proof fn lemma_event_keeps_cache_backed<B>(
    cache: Map<Seq<char>, B>,
    registry: Map<Seq<char>, ConsumerView>,
    event: PortEvent,
)
    requires
        registry_wf(registry),
        cache_backed(cache, registry),
    ensures
        cache_backed(limiter_after(cache, event), registry_after(registry, event)),
{
    let cache2 = limiter_after(cache, event);
    let registry2 = registry_after(registry, event);
    match event {
        PortEvent::Restarted(ports) => {},
        PortEvent::Applied(port) => {
            if port.status is Some {
                let c = consumer_of(port);
                lemma_consumer_well_keyed(port);
                assert forall|k: Seq<char>| #[trigger] cache2.contains_key(k) implies exists|
                    h: Seq<char>,
                |
                    registry2.contains_key(h) && (#[trigger] registry2[h]).key == k by {
                    assert(cache.contains_key(k));
                    let h = choose|h: Seq<char>|
                        registry.contains_key(h) && (#[trigger] registry[h]).key == k;
                    if h == c.hash_key {
                        assert(registry[h].hash_key == h);
                        assert(well_keyed(registry[h]));
                    }
                    assert(registry2.contains_key(h) && registry2[h].key == k);
                }
            }
        },
        PortEvent::Deleted(port) => {
            if port.status is Some {
                let c = consumer_of(port);
                lemma_consumer_well_keyed(port);
                assert forall|k: Seq<char>| #[trigger] cache2.contains_key(k) implies exists|
                    h: Seq<char>,
                |
                    registry2.contains_key(h) && (#[trigger] registry2[h]).key == k by {
                    assert(cache.contains_key(k));
                    let h = choose|h: Seq<char>|
                        registry.contains_key(h) && (#[trigger] registry[h]).key == k;
                    if h == c.hash_key {
                        assert(registry[h].hash_key == h);
                        assert(well_keyed(registry[h]));
                    }
                    assert(registry2.contains_key(h) && registry2[h].key == k);
                }
            }
        },
    }
}

} // verus!
