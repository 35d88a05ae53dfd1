//! The rate-limiter cache: one set of leaky buckets per consumer key, made
//! from the consumer's tier the first time a frame of that consumer arrives.

use vstd::prelude::*;
use std::sync::Arc;
use leaky_bucket::RateLimiter;
use crate::registry::{cache_backed, registry_wf, views, well_keyed, Consumer, ConsumerView};
use crate::strmap::StrMap;
use crate::tiers::{tier_views, Tier, TierRate, TierView};

verus! {

/// The leaky bucket of the `leaky_bucket` crate. Nothing of its state is
/// visible here: it is made, kept and handed out.
#[verifier::external_type_specification]
#[verifier::external_body]
pub struct ExRateLimiter(leaky_bucket::RateLimiter);

/// Why no tokens could be taken for a consumer.
#[derive(Debug, Clone, Copy, PartialEq, Eq, Structural)]
pub enum LimiterError {
    /// The consumer is no longer in the registry.
    PortDeleted,
    /// The consumer's tier is unknown, or holds a rate that no bucket can
    /// be made from: a limit of zero, or an interval of zero or beyond the
    /// longest that a bucket takes.
    InvalidTier,
}

impl LimiterError {
    /// The message of the error.
    pub fn to_string(&self) -> (r: String)
        ensures
            r@ == match *self {
                LimiterError::PortDeleted => "Port was deleted"@,
                LimiterError::InvalidTier => "Tier is invalid"@,
            },
    {
        match self {
            LimiterError::PortDeleted => "Port was deleted".to_owned(),
            LimiterError::InvalidTier => "Tier is invalid".to_owned(),
        }
    }
}

/// A leaky bucket with the numbers it was made from.
pub struct Bucket {
    pub initial: usize,
    pub refill: usize,
    pub interval: u64,
    pub gate: Arc<RateLimiter>,
}

/// The longest interval that a bucket can have, in seconds: the greatest
/// whose milliseconds fit 64 bits.
pub const MAX_INTERVAL_SECS: u64 = 18446744073709551;

/// A bucket can be made from a rate: it refills by at least one token, and
/// its interval is neither zero nor longer than the longest interval.
pub open spec fn usable(rate: TierRate) -> bool {
    rate.limit > 0 && 0 < rate.interval <= MAX_INTERVAL_SECS
}

/// Every rate of the sequence is usable.
pub open spec fn all_usable(rates: Seq<TierRate>) -> bool {
    forall|i: int| 0 <= i < rates.len() ==> usable(#[trigger] rates[i])
}

/// The tokens that a limiter gains at each refill.
pub uninterp spec fn limiter_refill(limiter: RateLimiter) -> nat;

/// The time between two refills of a limiter, in milliseconds.
pub uninterp spec fn limiter_interval_millis(limiter: RateLimiter) -> nat;

/// The most tokens that a limiter counts: a refill above it is cut to it.
pub open spec fn capped(tokens: nat) -> nat {
    if tokens <= isize::MAX as nat {
        tokens
    } else {
        isize::MAX as nat
    }
}

/// The bucket was made from the rate: it was asked to start full, and it
/// refills to the limit once per interval.
pub open spec fn made_from(bucket: Bucket, rate: TierRate) -> bool {
    &&& bucket.initial == rate.limit
    &&& bucket.refill == rate.limit
    &&& bucket.interval == rate.interval
    &&& limiter_refill(*bucket.gate) == capped(rate.limit as nat)
    &&& limiter_interval_millis(*bucket.gate) == rate.interval * 1000
}

/// The buckets were made from the rates, one for one and in order.
pub open spec fn buckets_of(buckets: Seq<Bucket>, rates: Seq<TierRate>) -> bool {
    &&& buckets.len() == rates.len()
    &&& forall|i: int| 0 <= i < rates.len() ==> made_from(#[trigger] buckets[i], rates[i])
}

/// Calls `RateLimiter::builder()`, sets `initial`, `interval` (whole
/// seconds) and `refill`, and builds the limiter. The builder panics on a
/// refill of zero, on an interval of zero and on one whose milliseconds do
/// not fit 64 bits, and it adds the interval to the present instant: the
/// conditions leave these out. The limiter keeps the interval as it is and
/// the refill cut to the most tokens it counts; nothing is claimed of the
/// tokens it holds.
#[verifier::external_body]
fn new_rate_limiter(initial: usize, refill: usize, interval_secs: u64) -> (r: RateLimiter)
    requires
        refill > 0,
        0 < interval_secs <= MAX_INTERVAL_SECS,
    ensures
        limiter_refill(r) == capped(refill as nat),
        limiter_interval_millis(r) == interval_secs * 1000,
{
    RateLimiter::builder()
        .initial(initial)
        .interval(std::time::Duration::from_secs(interval_secs))
        .refill(refill)
        .build()
}

/// Makes the bucket of a rate.
pub fn new_bucket(rate: &TierRate) -> (r: Bucket)
    requires
        usable(*rate),
    ensures
        made_from(r, *rate),
{
    let gate: RateLimiter = new_rate_limiter(rate.limit, rate.limit, rate.interval);
    Bucket { initial: rate.limit, refill: rate.limit, interval: rate.interval, gate: Arc::new(gate) }
}

/// Makes the buckets of a tier, or none where one of its rates is not usable.
pub fn materialize(tier: &Tier) -> (r: Option<Vec<Bucket>>)
    ensures
        match r {
            Some(buckets) => all_usable(tier.rates@) && buckets_of(buckets@, tier.rates@),
            None => !all_usable(tier.rates@),
        },
{
    let mut out: Vec<Bucket> = Vec::new();
    let mut i: usize = 0;
    while i < tier.rates.len()
        invariant
            i <= tier.rates.len(),
            out@.len() == i,
            forall|j: int| 0 <= j < i ==> usable(#[trigger] tier.rates@[j]),
            forall|j: int| 0 <= j < i ==> made_from(#[trigger] out@[j], tier.rates@[j]),
        decreases tier.rates.len() - i,
    {
        let rate: TierRate = tier.rates[i];
        if rate.limit == 0 || rate.interval == 0 || rate.interval > MAX_INTERVAL_SECS {
            return None;
        }
        out.push(new_bucket(&rate));
        i = i + 1;
    }
    Some(out)
}

/// What the first frame of a consumer without buckets leads to: the rates
/// to make buckets from, or the reason why there are none. The consumer is
/// read anew from the registry, and its tier from the store.
pub open spec fn first_use(
    consumers: Map<Seq<char>, ConsumerView>,
    tiers: Map<Seq<char>, TierView>,
    consumer: ConsumerView,
) -> Result<Seq<TierRate>, LimiterError> {
    if !consumers.contains_key(consumer.hash_key) {
        Err(LimiterError::PortDeleted)
    } else if !tiers.contains_key(consumers[consumer.hash_key].tier) {
        Err(LimiterError::InvalidTier)
    } else if !all_usable(tiers[consumers[consumer.hash_key].tier].rates) {
        Err(LimiterError::InvalidTier)
    } else {
        Ok(tiers[consumers[consumer.hash_key].tier].rates)
    }
}

/// Makes sure that the cache holds the buckets of a consumer, so that one
/// token can be taken from each of them. Buckets that are there stay as
/// they are. Otherwise the consumer is read anew from the registry and its
/// tier from the store, and one bucket per rate is entered under the
/// consumer's key; where the port is gone or the tier is not usable the
/// cache stays as it was.
pub fn limiter(
    consumers: &StrMap<Consumer>,
    tiers: &StrMap<Tier>,
    cache: &mut StrMap<Vec<Bucket>>,
    consumer: &Consumer,
) -> (r: Result<(), LimiterError>)
    requires
        consumers.wf(),
        tiers.wf(),
        old(cache).wf(),
    ensures
        final(cache).wf(),
        old(cache)@.contains_key(consumer.key@) ==> r is Ok && final(cache)@ == old(cache)@,
        !old(cache)@.contains_key(consumer.key@) ==> match first_use(
            views(consumers@),
            tier_views(tiers@),
            consumer@,
        ) {
            Ok(rates) => r is Ok && final(cache)@.contains_key(consumer.key@) && buckets_of(
                final(cache)@[consumer.key@]@,
                rates,
            ) && final(cache)@.remove(consumer.key@) == old(cache)@,
            Err(e) => r == Err::<(), LimiterError>(e) && final(cache)@ == old(cache)@,
        },
{
    if cache.contains_key(&consumer.key) {
        return Ok(());
    }
    let live: &Consumer = match consumers.get(&consumer.hash_key) {
        Some(c) => c,
        None => {
            return Err(LimiterError::PortDeleted);
        },
    };
    let tier: &Tier = match tiers.get(&live.tier) {
        Some(t) => t,
        None => {
            return Err(LimiterError::InvalidTier);
        },
    };
    match materialize(tier) {
        Some(buckets) => {
            cache.insert(consumer.key.clone(), buckets);
            assert(cache@.remove(consumer.key@) =~= old(cache)@);
            Ok(())
        },
        None => Err(LimiterError::InvalidTier),
    }
}

/// Entering the buckets of a consumer that the registry holds keeps the
/// cache within the registry: every bucket set still stands under the key
/// of a registered consumer.
pub proof fn lemma_first_use_keeps_cache_backed<B>(
    cache: Map<Seq<char>, B>,
    registry: Map<Seq<char>, ConsumerView>,
    consumer: ConsumerView,
    buckets: B,
)
    requires
        registry_wf(registry),
        cache_backed(cache, registry),
        well_keyed(consumer),
        registry.contains_key(consumer.hash_key),
    ensures
        cache_backed(cache.insert(consumer.key, buckets), registry),
{
    let after = cache.insert(consumer.key, buckets);
    assert forall|k: Seq<char>| #[trigger] after.contains_key(k) implies exists|h: Seq<char>|
        registry.contains_key(h) && (#[trigger] registry[h]).key == k by {
        if k == consumer.key {
            let h = consumer.hash_key;
            assert(registry[h].hash_key == h);
            assert(well_keyed(registry[h]));
            assert(registry.contains_key(h) && registry[h].key == k);
        } else {
            assert(cache.contains_key(k));
        }
    }
}

} // verus!
