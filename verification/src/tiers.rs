//! The tier store: named rate policies, the grammar of their intervals, and
//! the reload that replaces the store and empties the rate-limiter cache.
//!
//! An interval is a whole text such as `30s`, `5m`, `1h` or `7d`: one or
//! more digits and then exactly one unit. Digits and word characters are
//! the ASCII ones.

use vstd::prelude::*;
use vstd::string::*;
use crate::strmap::StrMap;
use crate::text::{all_digit, chars_of, digit_char, digits_value, is_digit, is_word, read_digits, word_char};

verus! {

/// One rate of a tier: `limit` tokens every `interval` seconds.
#[derive(Debug, Clone, Copy, PartialEq, Eq, Structural)]
pub struct TierRate {
    pub limit: usize,
    pub interval: u64,
}

/// A named rate policy: every one of its rates must admit a frame.
#[derive(Debug)]
pub struct Tier {
    pub name: String,
    pub rates: Vec<TierRate>,
}

/// A tier as plain values.
pub struct TierView {
    pub name: Seq<char>,
    pub rates: Seq<TierRate>,
}

impl View for Tier {
    type V = TierView;

    open spec fn view(&self) -> TierView {
        TierView { name: self.name@, rates: self.rates@ }
    }
}

impl Clone for Tier {
    fn clone(&self) -> (r: Self)
        ensures
            r@ == self@,
    {
        let mut rates: Vec<TierRate> = Vec::new();
        let mut i: usize = 0;
        while i < self.rates.len()
            invariant
                i <= self.rates.len(),
                rates@ == self.rates@.subrange(0, i as int),
            decreases self.rates.len() - i,
        {
            rates.push(self.rates[i]);
            i = i + 1;
            assert(rates@ =~= self.rates@.subrange(0, i as int));
        }
        assert(rates@ =~= self.rates@);
        Tier { name: self.name.clone(), rates }
    }
}

/// Why an interval could not be read.
#[derive(Debug, Clone, Copy, PartialEq, Eq, Structural)]
pub enum IntervalError {
    /// The text is not one or more digits and then one word character.
    InvalidFormat,
    /// The unit is none of `s`, `m`, `h`, `d`.
    InvalidSymbol,
    /// The interval in seconds does not fit 64 bits.
    TooLong,
}

/// The seconds in a unit.
pub open spec fn unit_seconds(c: char) -> Option<nat> {
    if c == 's' {
        Some(1nat)
    } else if c == 'm' {
        Some(60nat)
    } else if c == 'h' {
        Some(3600nat)
    } else if c == 'd' {
        Some(86400nat)
    } else {
        None
    }
}

/// What a number and a unit give.
pub open spec fn interval_of(number: nat, unit: char) -> Result<u64, IntervalError> {
    match unit_seconds(unit) {
        None => Err(IntervalError::InvalidSymbol),
        Some(u) => if number * u > u64::MAX {
            Err(IntervalError::TooLong)
        } else {
            Ok((number * u) as u64)
        },
    }
}

/// The text is one or more digits and then one word character.
pub open spec fn interval_shaped(s: Seq<char>) -> bool {
    s.len() >= 2 && all_digit(s, 0, s.len() - 1) && is_word(s.last())
}

/// The seconds that an interval text stands for: the number before its
/// last character times the seconds of the unit that this character names.
/// A text of any other shape, and any other unit, is an error.
pub open spec fn interval_seconds(s: Seq<char>) -> Result<u64, IntervalError> {
    if !interval_shaped(s) {
        Err(IntervalError::InvalidFormat)
    } else {
        interval_of(digits_value(s.subrange(0, s.len() - 1)), s.last())
    }
}

/// What the digits in `[i, e)` and the unit at `e` give.
fn read_interval(v: &Vec<char>, i: usize, e: usize) -> (r: Result<u64, IntervalError>)
    requires
        i <= e < v.len(),
        all_digit(v@, i as int, e as int),
    ensures
        r == interval_of(digits_value(v@.subrange(i as int, e as int)), v@[e as int]),
{
    let c: char = v[e];
    let unit: u64 = if c == 's' {
        1
    } else if c == 'm' {
        60
    } else if c == 'h' {
        3600
    } else if c == 'd' {
        86400
    } else {
        return Err(IntervalError::InvalidSymbol);
    };
    let ghost number = digits_value(v@.subrange(i as int, e as int));
    match read_digits(v, i, e, u64::MAX) {
        Some(x) => {
            let wide: u128 = (x as u128) * (unit as u128);
            if wide > u64::MAX as u128 {
                Err(IntervalError::TooLong)
            } else {
                Ok(wide as u64)
            }
        },
        None => {
            assert(number * (unit as nat) >= number) by (nonlinear_arith)
                requires
                    unit >= 1,
            ;
            Err(IntervalError::TooLong)
        },
    }
}

/// Reads an interval such as `30s`, `5m`, `1h` or `7d` as seconds. The
/// digits are the ASCII ones, so an interval that can be read is an ASCII
/// text.
pub fn parse_interval(text: &str) -> (r: Result<u64, IntervalError>)
    ensures
        r == interval_seconds(text@),
        r is Ok ==> text.is_ascii(),
{
    let v: Vec<char> = chars_of(text);
    let n: usize = v.len();
    if n < 2 {
        return Err(IntervalError::InvalidFormat);
    }
    let mut k: usize = 0;
    while k < n - 1
        invariant
            n >= 2,
            n == v.len(),
            v@ == text@,
            k <= n - 1,
            all_digit(v@, 0, k as int),
        decreases n - k,
    {
        if !digit_char(v[k]) {
            assert(!is_digit(v@[k as int]));
            return Err(IntervalError::InvalidFormat);
        }
        k = k + 1;
    }
    if !word_char(v[n - 1]) {
        return Err(IntervalError::InvalidFormat);
    }
    assert(text.is_ascii()) by {
        assert forall|i: int| 0 <= i < text@.len() implies '\0' <= #[trigger] text@[i]
            <= '\u{7f}' by {
            if i < n - 1 {
                assert(is_digit(v@[i]));
            } else {
                assert(is_word(v@[i]));
            }
        }
    }
    read_interval(&v, 0, n - 1)
}

/// One rate as the tiers file gives it: the interval still as text.
#[derive(Debug)]
pub struct RawRate {
    pub limit: usize,
    pub interval: String,
}

/// One tier as the tiers file gives it.
#[derive(Debug)]
pub struct RawTier {
    pub name: String,
    pub rates: Vec<RawRate>,
}

/// What reading the tiers file gave.
#[derive(Debug)]
pub enum TiersFile {
    /// The file could not be read, or is not a table of the expected shape.
    Unreadable,
    /// The file holds no `tiers` entry.
    NoTiers,
    /// The entries of `tiers`, in the order of the file.
    Tiers(Vec<RawTier>),
}

/// Why a reload left the store as it was.
#[derive(Debug, Clone, Copy, PartialEq, Eq, Structural)]
pub enum TierError {
    /// The file could not be read.
    Unreadable,
    /// Some rate has an interval that cannot be read.
    InvalidInterval,
}

/// Every interval of these rates can be read.
pub open spec fn rates_ok(rates: Seq<RawRate>) -> bool {
    forall|i: int| 0 <= i < rates.len() ==> interval_seconds((#[trigger] rates[i]).interval@) is Ok
}

/// The rates with their intervals read.
pub open spec fn rates_of(rates: Seq<RawRate>) -> Seq<TierRate> {
    Seq::new(
        rates.len(),
        |i: int| TierRate { limit: rates[i].limit, interval: interval_seconds(rates[i].interval@)->Ok_0 },
    )
}

/// Every interval of every tier can be read.
pub open spec fn tiers_ok(raw: Seq<RawTier>) -> bool {
    forall|i: int| 0 <= i < raw.len() ==> rates_ok((#[trigger] raw[i]).rates@)
}

/// The tier that an entry of the file gives.
pub open spec fn tier_of(raw: RawTier) -> TierView {
    TierView { name: raw.name@, rates: rates_of(raw.rates@) }
}

/// The store that the entries of the file give: each tier under its name,
/// a later entry replacing an earlier one of the same name.
pub open spec fn tier_map(raw: Seq<RawTier>) -> Map<Seq<char>, TierView>
    decreases raw.len(),
{
    if raw.len() == 0 {
        Map::empty()
    } else {
        tier_map(raw.drop_last()).insert(raw.last().name@, tier_of(raw.last()))
    }
}

/// The store as plain values.
pub open spec fn tier_views(m: Map<Seq<char>, Tier>) -> Map<Seq<char>, TierView> {
    m.map_values(|t: Tier| t@)
}

/// The file replaces the store: it holds entries, and all can be read.
pub open spec fn reloaded(file: TiersFile) -> bool {
    file is Tiers && tiers_ok(file->Tiers_0@)
}

/// The store after a reload: what the file gives where the file replaces
/// the store, and what it was otherwise.
pub open spec fn tiers_after_reload(
    before: Map<Seq<char>, TierView>,
    file: TiersFile,
) -> Map<Seq<char>, TierView> {
    if reloaded(file) {
        tier_map(file->Tiers_0@)
    } else {
        before
    }
}

/// The rate-limiter cache after a reload: empty where the file replaces
/// the store, and what it was otherwise.
pub open spec fn limiter_after_reload<B>(before: Map<Seq<char>, B>, file: TiersFile) -> Map<
    Seq<char>,
    B,
> {
    if reloaded(file) {
        Map::empty()
    } else {
        before
    }
}

/// After a reload that replaced the store the rate-limiter cache holds no
/// bucket set at all, so none that was made from a tier of the store before.
pub proof fn lemma_reload_invalidates_limiter<B>(before: Map<Seq<char>, B>, file: TiersFile)
    requires
        reloaded(file),
    ensures
        forall|k: Seq<char>| !limiter_after_reload(before, file).contains_key(k),
{
}

/// Every tier of a store read from a file stands under its own name.
pub proof fn lemma_tier_map_named(raw: Seq<RawTier>)
    ensures
        forall|k: Seq<char>| tier_map(raw).contains_key(k) ==> (#[trigger] tier_map(raw)[k]).name == k,
    decreases raw.len(),
{
    if raw.len() > 0 {
        lemma_tier_map_named(raw.drop_last());
        let rest = tier_map(raw.drop_last());
        assert forall|k: Seq<char>| tier_map(raw).contains_key(k) implies (#[trigger] tier_map(
            raw,
        )[k]).name == k by {
            if k != raw.last().name@ {
                assert(rest.contains_key(k));
                assert(tier_map(raw)[k] == rest[k]);
            }
        }
    }
}

/// Reads the intervals of the rates of one tier.
fn read_rates(rates: &Vec<RawRate>) -> (r: Option<Vec<TierRate>>)
    ensures
        match r {
            Some(v) => rates_ok(rates@) && v@ == rates_of(rates@),
            None => !rates_ok(rates@),
        },
{
    let mut out: Vec<TierRate> = Vec::new();
    let mut i: usize = 0;
    while i < rates.len()
        invariant
            i <= rates.len(),
            out@.len() == i,
            forall|j: int| 0 <= j < i ==> interval_seconds((#[trigger] rates@[j]).interval@) is Ok,
            forall|j: int| 0 <= j < i ==> out@[j] == rates_of(rates@)[j],
        decreases rates.len() - i,
    {
        match parse_interval(rates[i].interval.as_str()) {
            Ok(interval) => {
                out.push(TierRate { limit: rates[i].limit, interval });
            },
            Err(_) => {
                return None;
            },
        }
        i = i + 1;
    }
    assert(out@ =~= rates_of(rates@));
    Some(out)
}

/// Builds the store that the entries of the file give.
fn read_tiers(raw: &Vec<RawTier>) -> (r: Option<StrMap<Tier>>)
    ensures
        match r {
            Some(m) => tiers_ok(raw@) && m.wf() && tier_views(m@) == tier_map(raw@),
            None => !tiers_ok(raw@),
        },
{
    let mut out: StrMap<Tier> = StrMap::new();
    let mut i: usize = 0;
    assert(tier_views(out@) =~= tier_map(raw@.subrange(0, 0)));
    while i < raw.len()
        invariant
            i <= raw.len(),
            out.wf(),
            forall|j: int| 0 <= j < i ==> rates_ok((#[trigger] raw@[j]).rates@),
            tier_views(out@) == tier_map(raw@.subrange(0, i as int)),
        decreases raw.len() - i,
    {
        match read_rates(&raw[i].rates) {
            Some(rates) => {
                let ghost before = out@;
                let tier = Tier { name: raw[i].name.clone(), rates };
                out.insert(raw[i].name.clone(), tier);
                assert(raw@.subrange(0, i + 1).drop_last() =~= raw@.subrange(0, i as int));
                assert(tier_views(out@) =~= tier_views(before).insert(
                    raw@[i as int].name@,
                    tier_of(raw@[i as int]),
                ));
            },
            None => {
                return None;
            },
        }
        i = i + 1;
    }
    assert(raw@.subrange(0, raw@.len() as int) =~= raw@);
    Some(out)
}

/// What a reload answers: an unreadable file and an interval that cannot
/// be read are errors, everything else is not.
pub open spec fn reload_outcome(file: TiersFile) -> Result<(), TierError> {
    match file {
        TiersFile::Unreadable => Err(TierError::Unreadable),
        TiersFile::NoTiers => Ok(()),
        TiersFile::Tiers(raw) => if tiers_ok(raw@) {
            Ok(())
        } else {
            Err(TierError::InvalidInterval)
        },
    }
}

/// Reloads the tier store from what reading the tiers file gave, and says
/// whether the file replaced the store. Entries that can all be read
/// replace it. A file without a `tiers` entry changes nothing and is no
/// error. An unreadable file, or an interval that cannot be read, leaves
/// the store as it was.
pub fn replace_tiers(tiers: &mut StrMap<Tier>, file: &TiersFile) -> (r: Result<bool, TierError>)
    requires
        old(tiers).wf(),
    ensures
        final(tiers).wf(),
        match r {
            Ok(replaced) => reload_outcome(*file) is Ok && replaced == reloaded(*file),
            Err(e) => reload_outcome(*file) == Err::<(), TierError>(e),
        },
        tier_views(final(tiers)@) == tiers_after_reload(tier_views(old(tiers)@), *file),
        !reloaded(*file) ==> final(tiers)@ == old(tiers)@,
{
    match file {
        TiersFile::Unreadable => Err(TierError::Unreadable),
        TiersFile::NoTiers => Ok(false),
        TiersFile::Tiers(raw) => {
            match read_tiers(raw) {
                Some(fresh) => {
                    *tiers = fresh;
                    Ok(true)
                },
                None => Err(TierError::InvalidInterval),
            }
        },
    }
}

/// Empties the rate-limiter cache where a reload replaced the tier store.
pub fn forget_buckets<B>(limiter: &mut StrMap<B>, replaced: bool)
    requires
        old(limiter).wf(),
    ensures
        final(limiter).wf(),
        final(limiter)@ == if replaced {
            Map::<Seq<char>, B>::empty()
        } else {
            old(limiter)@
        },
{
    if replaced {
        limiter.clear();
    }
}

/// Reloads the tier store from what reading the tiers file gave. Entries
/// that can all be read replace the store and empty the rate-limiter cache.
/// A file without a `tiers` entry changes nothing and is no error. An
/// unreadable file, or an interval that cannot be read, leaves the store and
/// the cache as they were.
pub fn update_tiers<B>(tiers: &mut StrMap<Tier>, limiter: &mut StrMap<B>, file: &TiersFile) -> (r:
    Result<(), TierError>)
    requires
        old(tiers).wf(),
        old(limiter).wf(),
    ensures
        final(tiers).wf(),
        final(limiter).wf(),
        r == reload_outcome(*file),
        tier_views(final(tiers)@) == tiers_after_reload(tier_views(old(tiers)@), *file),
        final(limiter)@ == limiter_after_reload(old(limiter)@, *file),
        !reloaded(*file) ==> final(tiers)@ == old(tiers)@,
{
    match replace_tiers(tiers, file) {
        Ok(replaced) => {
            forget_buckets(limiter, replaced);
            Ok(())
        },
        Err(e) => Err(e),
    }
}

} // verus!
