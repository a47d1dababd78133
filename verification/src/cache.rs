//! The price cache: a thread-safe map from a (crypto, fiat) key to a cached
//! price and the time it was fetched, invalidated by age.
//!
//! The map itself is `dashmap::DashMap`, taken on trust through the wrappers
//! below; everything stated about staleness, overwriting and idempotence is
//! verified against the map's contents.

use vstd::prelude::*;

use crate::errors::CryptoError;

verus! {

/// Age, in seconds, at which a cached price stops being served.
pub const CACHE_TTL_SECS: u64 = 300;

/// The concurrent map of the `dashmap` crate, declared so that it can stand
/// in fields and signatures; its values are opaque and are spoken of only
/// through [`cache_contents`].
#[verifier::external_type_specification]
#[verifier::external_body]
#[verifier::reject_recursive_types(K)]
#[verifier::reject_recursive_types(V)]
#[verifier::reject_recursive_types(S)]
pub struct ExDashMap<K, V, S>(dashmap::DashMap<K, V, S>);

/// What `m` maps each key to: for every (crypto, fiat) key, the cached
/// price and the second it was fetched at.
pub uninterp spec fn cache_contents(
    m: dashmap::DashMap<(String, String), (u64, u64)>,
) -> Map<(Seq<char>, Seq<char>), (u64, u64)>;

/// Relies on dashmap::DashMap::new: makes an empty map.
#[verifier::external_body]
fn cache_map_new() -> (r: dashmap::DashMap<(String, String), (u64, u64)>)
    ensures
        forall|key: (Seq<char>, Seq<char>)| !cache_contents(r).contains_key(key),
{
    dashmap::DashMap::new()
}

/// Relies on dashmap::DashMap::get: the value the map holds at the key,
/// keys being compared as strings.
#[verifier::external_body]
fn cache_map_get(
    m: &dashmap::DashMap<(String, String), (u64, u64)>,
    key: &(String, String),
) -> (r: Option<(u64, u64)>)
    ensures
        r == (if cache_contents(*m).contains_key((key.0@, key.1@)) {
            Some(cache_contents(*m)[(key.0@, key.1@)])
        } else {
            None::<(u64, u64)>
        }),
{
    m.get(key).map(|entry| *entry)
}

/// Relies on dashmap::DashMap::insert: afterwards the map holds `value` at
/// `key`, every other key unchanged.
#[verifier::external_body]
fn cache_map_insert(
    m: &mut dashmap::DashMap<(String, String), (u64, u64)>,
    key: (String, String),
    value: (u64, u64),
)
    ensures
        cache_contents(*final(m)) == cache_contents(*old(m)).insert((key.0@, key.1@), value),
{
    m.insert(key, value);
}

/// A time-bounded cache of prices, keyed by (crypto, fiat) pairs.
///
/// Entries are never removed: a stale entry is treated as absent until a
/// refresh overwrites it, so the map grows with the number of distinct keys
/// ever queried in a process lifetime.
pub struct PriceCache {
    map: dashmap::DashMap<(String, String), (u64, u64)>,
    ttl_secs: u64,
}

impl PriceCache {
    /// The (price, fetched_at) entries the cache holds, keyed by the
    /// characters of the (crypto, fiat) pair.
    pub closed spec fn contents(&self) -> Map<(Seq<char>, Seq<char>), (u64, u64)> {
        cache_contents(self.map)
    }

    /// The age at which an entry stops being served.
    pub closed spec fn ttl(&self) -> u64 {
        self.ttl_secs
    }

    /// An empty cache whose entries live `ttl_secs` seconds.
    pub fn new(ttl_secs: u64) -> (r: Self)
        ensures
            r.contents() == Map::<(Seq<char>, Seq<char>), (u64, u64)>::empty(),
            r.ttl() == ttl_secs,
    {
        let map = cache_map_new();
        proof {
            assert(cache_contents(map) =~= Map::<(Seq<char>, Seq<char>), (u64, u64)>::empty());
        }
        PriceCache { map, ttl_secs }
    }

    /// An empty cache with the default time-to-live.
    pub fn with_default_ttl() -> (r: Self)
        ensures
            r.contents() == Map::<(Seq<char>, Seq<char>), (u64, u64)>::empty(),
            r.ttl() == CACHE_TTL_SECS,
    {
        Self::new(CACHE_TTL_SECS)
    }

    /// What a lookup returns: the cached price and its age while that age
    /// is under the time-to-live, nothing on a miss or a stale entry, and a
    /// clock error when the entry was fetched after `now`.
    pub open spec fn spec_lookup(
        &self,
        crypto: Seq<char>,
        fiat: Seq<char>,
        now: u64,
    ) -> Result<Option<(u64, u64)>, CryptoError> {
        let key = (crypto, fiat);
        if self.contents().contains_key(key) {
            let entry = self.contents()[key];
            if entry.1 > now {
                Err(CryptoError::SystemTimeError)
            } else if now - entry.1 < self.ttl() {
                Ok(Some((entry.0, (now - entry.1) as u64)))
            } else {
                Ok(None)
            }
        } else {
            Ok(None)
        }
    }

    /// Consult the cache at second `now`: a fresh entry's price and age,
    /// or nothing when a provider round trip is needed.
    pub fn lookup(&self, crypto: &str, fiat: &str, now: u64) -> (r: Result<
        Option<(u64, u64)>,
        CryptoError,
    >)
        ensures
            r == self.spec_lookup(crypto@, fiat@, now),
    {
        let key = (crypto.to_owned(), fiat.to_owned());
        match cache_map_get(&self.map, &key) {
            Some((price, fetched_at)) => {
                if fetched_at > now {
                    Err(CryptoError::SystemTimeError)
                } else if now - fetched_at < self.ttl_secs {
                    Ok(Some((price, now - fetched_at)))
                } else {
                    Ok(None)
                }
            },
            None => Ok(None),
        }
    }

    /// Record `price` for the pair, fetched at second `now`, overwriting
    /// whatever the cache held there.
    pub fn store(&mut self, crypto: &str, fiat: &str, price: u64, now: u64)
        ensures
            final(self).contents() == old(self).contents().insert(
                (crypto@, fiat@),
                (price, now),
            ),
            final(self).ttl() == old(self).ttl(),
    {
        cache_map_insert(&mut self.map, (crypto.to_owned(), fiat.to_owned()), (price, now));
    }
}

/// Law: a stored price is served, with its exact age, for every lookup
/// younger than the time-to-live, and stops being served from the
/// time-to-live on.
pub proof fn lemma_ttl_correct(
    cache: PriceCache,
    crypto: Seq<char>,
    fiat: Seq<char>,
    price: u64,
    stored_at: u64,
    now: u64,
)
    requires
        cache.contents().contains_key((crypto, fiat)),
        cache.contents()[(crypto, fiat)] == (price, stored_at),
        stored_at <= now,
    ensures
        now - stored_at < cache.ttl() ==> cache.spec_lookup(crypto, fiat, now) == Ok::<
            Option<(u64, u64)>,
            CryptoError,
        >(Some((price, (now - stored_at) as u64))),
        now - stored_at >= cache.ttl() ==> cache.spec_lookup(crypto, fiat, now) == Ok::<
            Option<(u64, u64)>,
            CryptoError,
        >(None::<(u64, u64)>),
{
}

/// Law: two lookups of one pair that both return a cached price return the
/// same price — repeated lookups within the time-to-live window are
/// idempotent and need no refresh.
pub proof fn lemma_lookup_idempotent(
    cache: PriceCache,
    crypto: Seq<char>,
    fiat: Seq<char>,
    t1: u64,
    t2: u64,
    hit1: (u64, u64),
    hit2: (u64, u64),
)
    requires
        cache.spec_lookup(crypto, fiat, t1) == Ok::<Option<(u64, u64)>, CryptoError>(Some(hit1)),
        cache.spec_lookup(crypto, fiat, t2) == Ok::<Option<(u64, u64)>, CryptoError>(Some(hit2)),
    ensures
        hit1.0 == hit2.0,
{
}

} // verus!
