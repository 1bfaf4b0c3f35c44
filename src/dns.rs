//! A bounded cache of resolved addresses, each entry valid until its expiry
//! time. Times are readings of a monotonic clock in milliseconds, supplied by
//! the caller; the least recently used entry leaves when the cache is full.
use vstd::prelude::*;
use lru::LruCache;

verus! {

#[derive(Debug, Clone, Copy, PartialEq, Eq)]
pub enum IpAddress {
    V4([u8; 4]),
    V6([u8; 16]),
}

#[derive(Debug, Clone)]
pub struct DnsRecord {
    pub ips: Vec<IpAddress>,
    pub expires_at: u64,
}

pub struct RecordView {
    pub ips: Seq<IpAddress>,
    pub expires_at: u64,
}

impl View for DnsRecord {
    type V = RecordView;

    open spec fn view(&self) -> RecordView {
        RecordView { ips: self.ips@, expires_at: self.expires_at }
    }
}

/// The lru crate's cache, held opaque; its entries are `lru_records`.
#[verifier::external_type_specification]
#[verifier::external_body]
#[verifier::reject_recursive_types(K)]
#[verifier::reject_recursive_types(V)]
#[verifier::reject_recursive_types(S)]
pub struct ExLruCache<K, V, S>(LruCache<K, V, S>);

/// The hasher the lru crate's cache uses by default, held opaque.
#[verifier::external_type_specification]
#[verifier::external_body]
pub struct ExDefaultHasher(lru::DefaultHasher);

/// The entries of a cache, by name.
pub uninterp spec fn lru_records(c: LruCache<String, DnsRecord>) -> Map<Seq<char>, RecordView>;

/// The number of entries a cache was made to hold.
pub uninterp spec fn lru_capacity(c: LruCache<String, DnsRecord>) -> nat;

/// Relies on `lru::LruCache::new`: an empty cache holding at most `cap` entries.
#[verifier::external_body]
fn lru_new(cap: usize) -> (r: LruCache<String, DnsRecord>)
    requires
        cap > 0,
    ensures
        lru_records(r).dom().is_empty(),
        lru_capacity(r) == cap,
{
    LruCache::new(std::num::NonZeroUsize::new(cap).unwrap())
}

/// Relies on `lru::LruCache::get`: the entry of a name, if any (a copy); it
/// changes only the order of use.
#[verifier::external_body]
fn lru_get(c: &mut LruCache<String, DnsRecord>, name: &str) -> (r: Option<DnsRecord>)
    ensures
        lru_records(*final(c)) == lru_records(*old(c)),
        lru_capacity(*final(c)) == lru_capacity(*old(c)),
        r is Some <==> lru_records(*old(c)).contains_key(name@),
        r matches Some(v) ==> v@ == lru_records(*old(c))[name@],
{
    c.get(name).cloned()
}

/// Relies on `lru::LruCache::peek`: the entry of a name, if any (a copy).
#[verifier::external_body]
fn lru_peek(c: &LruCache<String, DnsRecord>, name: &str) -> (r: Option<DnsRecord>)
    ensures
        r is Some <==> lru_records(*c).contains_key(name@),
        r matches Some(v) ==> v@ == lru_records(*c)[name@],
{
    c.peek(name).cloned()
}

/// Relies on `lru::LruCache::pop`: removes the entry of a name.
#[verifier::external_body]
fn lru_pop(c: &mut LruCache<String, DnsRecord>, name: &str)
    ensures
        lru_records(*final(c)) == lru_records(*old(c)).remove(name@),
        lru_capacity(*final(c)) == lru_capacity(*old(c)),
{
    c.pop(name);
}

/// Relies on `lru::LruCache::put`: the name now maps to the record; entries
/// of other names stay as they were, except that, when the cache was full and
/// the name new, one of them (the least recently used) leaves.
#[verifier::external_body]
fn lru_put(c: &mut LruCache<String, DnsRecord>, name: String, record: DnsRecord)
    ensures
        lru_capacity(*final(c)) == lru_capacity(*old(c)),
        lru_records(*final(c)).contains_key(name@),
        lru_records(*final(c))[name@] == record@,
        forall|k: Seq<char>|
            k != name@ && #[trigger] lru_records(*final(c)).contains_key(k) ==> lru_records(
                *old(c),
            ).contains_key(k) && lru_records(*final(c))[k] == lru_records(*old(c))[k],
        lru_records(*old(c)).contains_key(name@) || lru_records(*old(c)).len() < lru_capacity(*old(c))
            ==> lru_records(*final(c)) == lru_records(*old(c)).insert(name@, record@),
        lru_records(*final(c)).len() >= lru_records(*old(c)).len(),
{
    c.put(name, record);
}

/// Entries are kept for this many milliseconds by `resolve_with_cache`.
pub const SHARED_TTL_MS: u64 = 600_000;

/// Entries are kept for this many milliseconds by a resolver.
pub const RESOLVER_TTL_MS: u64 = 300_000;

/// The smallest capacity a resolver's cache is made with.
pub const MIN_CAPACITY: usize = 100;

pub open spec fn fresh(r: RecordView, now: u64) -> bool {
    r.expires_at > now
}

fn copy_ips(ips: &Vec<IpAddress>) -> (r: Vec<IpAddress>)
    ensures
        r@ == ips@,
{
    let mut out: Vec<IpAddress> = Vec::new();
    let mut i: usize = 0;
    while i < ips.len()
        invariant
            i <= ips@.len(),
            out@ == ips@.subrange(0, i as int),
        decreases ips@.len() - i,
    {
        out.push(ips[i]);
        i = i + 1;
        assert(out@ =~= ips@.subrange(0, i as int));
    }
    assert(out@ =~= ips@);
    out
}

/// A resolver's cache: names to addresses, each valid until it expires.
pub struct CachedDotResolver {
    cache: LruCache<String, DnsRecord>,
}

impl CachedDotResolver {
    pub closed spec fn records(&self) -> Map<Seq<char>, RecordView> {
        lru_records(self.cache)
    }

    pub closed spec fn capacity(&self) -> nat {
        lru_capacity(self.cache)
    }

    /// An empty cache of at least `MIN_CAPACITY` entries.
    pub fn new(capacity: usize) -> (r: CachedDotResolver)
        ensures
            r.records().dom().is_empty(),
            r.capacity() == if capacity > MIN_CAPACITY {
                capacity
            } else {
                MIN_CAPACITY
            },
    {
        let size = if capacity > MIN_CAPACITY {
            capacity
        } else {
            MIN_CAPACITY
        };
        CachedDotResolver { cache: lru_new(size) }
    }

    /// The cached addresses of a name, if its entry has not expired at `now`;
    /// an expired entry is dropped.
    pub fn get(&mut self, domain: &str, now: u64) -> (r: Option<Vec<IpAddress>>)
        ensures
            final(self).capacity() == old(self).capacity(),
            match old(self).records().get(domain@) {
                Some(rec) => if fresh(rec, now) {
                    r is Some && r.unwrap()@ == rec.ips && final(self).records() == old(self).records()
                } else {
                    r is None && final(self).records() == old(self).records().remove(domain@)
                },
                None => r is None && final(self).records() == old(self).records(),
            },
    {
        match lru_get(&mut self.cache, domain) {
            Some(record) => {
                if record.expires_at > now {
                    Some(record.ips)
                } else {
                    lru_pop(&mut self.cache, domain);
                    None
                }
            },
            None => None,
        }
    }

    /// Caches addresses for a name until `ttl` milliseconds after `now`
    /// (the latest representable time if that overflows). Other entries stay,
    /// except that a new name in a full cache pushes out one of them.
    pub fn set(&mut self, domain: String, ips: Vec<IpAddress>, ttl: u64, now: u64)
        ensures
            final(self).capacity() == old(self).capacity(),
            final(self).records().contains_key(domain@),
            final(self).records()[domain@] == (RecordView {
                ips: ips@,
                expires_at: if now + ttl <= u64::MAX {
                    (now + ttl) as u64
                } else {
                    u64::MAX
                },
            }),
            forall|k: Seq<char>|
                k != domain@ && #[trigger] final(self).records().contains_key(k) ==> old(
                    self,
                ).records().contains_key(k) && final(self).records()[k] == old(self).records()[k],
            old(self).records().contains_key(domain@) || old(self).records().len() < old(self).capacity()
                ==> final(self).records() == old(self).records().insert(
                domain@,
                RecordView {
                    ips: ips@,
                    expires_at: if now + ttl <= u64::MAX {
                        (now + ttl) as u64
                    } else {
                        u64::MAX
                    },
                },
            ),
            final(self).records().len() >= old(self).records().len(),
    {
        let expires_at = now.saturating_add(ttl);
        lru_put(&mut self.cache, domain, DnsRecord { ips, expires_at });
    }

    /// The cached addresses of a name if its entry is fresh at `now`, without
    /// touching the cache.
    pub fn peek_fresh(&self, domain: &str, now: u64) -> (r: Option<Vec<IpAddress>>)
        ensures
            match self.records().get(domain@) {
                Some(rec) => if fresh(rec, now) {
                    r is Some && r.unwrap()@ == rec.ips
                } else {
                    r is None
                },
                None => r is None,
            },
    {
        match lru_peek(&self.cache, domain) {
            Some(record) => {
                if record.expires_at > now {
                    Some(copy_ips(&record.ips))
                } else {
                    None
                }
            },
            None => None,
        }
    }
}

} // verus!
