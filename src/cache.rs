//! The persisted record: metadata, the last known addresses and the provider
//! credentials, and the normalization pass that runs after every change.

use vstd::prelude::*;

use crate::address::{is_ipv4, is_ipv6, valid_ipv4, valid_ipv6, IPV4_DEFAULT, IPV6_DEFAULT};
use crate::clock::local_timestamp;
use crate::providers::{
    is_canonical, latest_supported, lemma_canonical_unchanged, lemma_latest_supported,
    lemma_push_supported, lemma_without_absent, models, retain_latest_supported,
    without_id, without_provider, is_supported_provider, DNSProvider, ProviderModel,
};

verus! {

/// Notice at the top of the file.
pub const WARNING: &'static str = "THIS FILE IS AUTO-GENERATED. DO NOT EDIT MANUALLY. IF THE FILE IS TAMPERED WITH, IT WILL BE OVERWRITTEN WITH DEFAULT DATA, AND ALL PREVIOUS DATA WILL BE LOST.";

/// Name of the file's format.
pub const NAME: &'static str = "wapi-cache";

/// Version of the program that wrote the file.
pub const VERSION: &'static str = "0.1.0";

/// What the file is.
pub const DESCRIPTION: &'static str = "The cache file for the Wapi client.";

/// Where the program lives.
pub const HOMEPAGE: &'static str = "https://github.com/AmonRayfa/wapi";

/// Informational block, rewritten by every normalization.
#[derive(Debug, Clone)]
pub struct Metadata {
    pub warning: String,
    pub name: String,
    pub version: String,
    pub description: String,
    pub homepage: String,
    pub timestamp: String,
}

/// The addresses and the credentials.
#[derive(Debug, Clone)]
pub struct Data {
    pub ipv4_address: String,
    pub ipv6_address: String,
    pub dns_providers: Vec<DNSProvider>,
}

/// The client's persisted state.
#[derive(Debug, Clone)]
pub struct Cache {
    pub metadata: Metadata,
    pub data: Data,
}

/// What a record holds, as text.
pub struct CacheModel {
    pub warning: Seq<char>,
    pub name: Seq<char>,
    pub version: Seq<char>,
    pub description: Seq<char>,
    pub homepage: Seq<char>,
    pub timestamp: Seq<char>,
    pub ipv4_address: Seq<char>,
    pub ipv6_address: Seq<char>,
    pub dns_providers: Seq<ProviderModel>,
}

impl View for Cache {
    type V = CacheModel;

    open spec fn view(&self) -> CacheModel {
        CacheModel {
            warning: self.metadata.warning@,
            name: self.metadata.name@,
            version: self.metadata.version@,
            description: self.metadata.description@,
            homepage: self.metadata.homepage@,
            timestamp: self.metadata.timestamp@,
            ipv4_address: self.data.ipv4_address@,
            ipv6_address: self.data.ipv6_address@,
            dns_providers: models(self.data.dns_providers@),
        }
    }
}

/// A record with every text empty and no credential.
pub open spec fn empty_model() -> CacheModel {
    CacheModel {
        warning: Seq::empty(),
        name: Seq::empty(),
        version: Seq::empty(),
        description: Seq::empty(),
        homepage: Seq::empty(),
        timestamp: Seq::empty(),
        ipv4_address: Seq::empty(),
        ipv6_address: Seq::empty(),
        dns_providers: Seq::empty(),
    }
}

/// `c` with its credentials replaced by `ps`.
pub open spec fn with_providers(c: CacheModel, ps: Seq<ProviderModel>) -> CacheModel {
    CacheModel {
        warning: c.warning,
        name: c.name,
        version: c.version,
        description: c.description,
        homepage: c.homepage,
        timestamp: c.timestamp,
        ipv4_address: c.ipv4_address,
        ipv6_address: c.ipv6_address,
        dns_providers: ps,
    }
}

/// `c` with its timestamp replaced by `ts`.
pub open spec fn with_timestamp(c: CacheModel, ts: Seq<char>) -> CacheModel {
    CacheModel {
        warning: c.warning,
        name: c.name,
        version: c.version,
        description: c.description,
        homepage: c.homepage,
        timestamp: ts,
        ipv4_address: c.ipv4_address,
        ipv6_address: c.ipv6_address,
        dns_providers: c.dns_providers,
    }
}

/// The canonical form of `c`, stamped with `ts`: fixed metadata, each
/// address kept if valid and replaced by its default otherwise, and for each
/// supported provider only its last credential.
pub open spec fn normalized(c: CacheModel, ts: Seq<char>) -> CacheModel {
    CacheModel {
        warning: WARNING@,
        name: NAME@,
        version: VERSION@,
        description: DESCRIPTION@,
        homepage: HOMEPAGE@,
        timestamp: ts,
        ipv4_address: if valid_ipv4(c.ipv4_address) {
            c.ipv4_address
        } else {
            IPV4_DEFAULT@
        },
        ipv6_address: if valid_ipv6(c.ipv6_address) {
            c.ipv6_address
        } else {
            IPV6_DEFAULT@
        },
        dns_providers: latest_supported(c.dns_providers),
    }
}

/// `c` is in canonical form.
pub open spec fn is_normalized(c: CacheModel) -> bool {
    c == normalized(c, c.timestamp)
}

/// `c` after adding credential `p`: normalized, `p` appended, normalized
/// again.
pub open spec fn added(c: CacheModel, p: ProviderModel, ts: Seq<char>) -> CacheModel {
    let n = normalized(c, ts);
    normalized(with_providers(n, n.dns_providers.push(p)), ts)
}

/// `c` after removing provider `id`: normalized, every credential of `id`
/// dropped, normalized again.
pub open spec fn removed(c: CacheModel, id: Seq<char>, ts: Seq<char>) -> CacheModel {
    let n = normalized(c, ts);
    normalized(with_providers(n, without_id(n.dns_providers, id)), ts)
}

/// The record that loading gives when the file decoded to `parsed`, or
/// failed to decode (`None`).
pub open spec fn loaded(parsed: Option<CacheModel>, ts: Seq<char>) -> CacheModel {
    match parsed {
        Some(c) => normalized(c, ts),
        None => normalized(empty_model(), ts),
    }
}

/// Normalizing twice gives what normalizing once gives: only the timestamp
/// differs between one pass and two.
pub proof fn lemma_normalize_idempotent(c: CacheModel, t1: Seq<char>, t2: Seq<char>)
    ensures
        normalized(normalized(c, t1), t2) == normalized(c, t2),
        normalized(normalized(c, t1), t2) == with_timestamp(normalized(c, t1), t2),
{
    lemma_latest_supported(c.dns_providers);
    lemma_canonical_unchanged(latest_supported(c.dns_providers));
}

/// Normalization replaces an address that does not parse by its default and
/// leaves a valid one as it is.
pub proof fn lemma_normalized_addresses(c: CacheModel, ts: Seq<char>)
    ensures
        !valid_ipv4(c.ipv4_address) ==> normalized(c, ts).ipv4_address == IPV4_DEFAULT@,
        valid_ipv4(c.ipv4_address) ==> normalized(c, ts).ipv4_address == c.ipv4_address,
        !valid_ipv6(c.ipv6_address) ==> normalized(c, ts).ipv6_address == IPV6_DEFAULT@,
        valid_ipv6(c.ipv6_address) ==> normalized(c, ts).ipv6_address == c.ipv6_address,
{
}

/// A normalized record holds valid addresses and a canonical list of
/// credentials.
pub proof fn lemma_normalized_valid(c: CacheModel)
    requires
        is_normalized(c),
    ensures
        valid_ipv4(c.ipv4_address),
        valid_ipv6(c.ipv6_address),
        is_canonical(c.dns_providers),
{
    lemma_latest_supported(c.dns_providers);
}

/// Adding two credentials of one supported provider in a row leaves exactly
/// one credential for it: the second.
pub proof fn lemma_add_twice(
    c: CacheModel,
    p1: ProviderModel,
    p2: ProviderModel,
    t1: Seq<char>,
    t2: Seq<char>,
)
    requires
        is_supported_provider(p1.id),
        p2.id == p1.id,
    ensures
        ({
            let ps = added(added(c, p1, t1), p2, t2).dns_providers;
            exists|a: int|
                0 <= a < ps.len() && ps[a] == p2 && forall|b: int|
                    0 <= b < ps.len() && (#[trigger] ps[b]).id == p2.id ==> b == a
        }),
{
    let c1 = added(c, p1, t1);
    let s = latest_supported(c1.dns_providers);
    let ps = added(c1, p2, t2).dns_providers;
    assert(ps == latest_supported(s.push(p2)));
    lemma_push_supported(s, p2);
    lemma_latest_supported(s.push(p2));
    let a = choose|a: int| 0 <= a < ps.len() && ps[a] == p2;
    assert forall|b: int| 0 <= b < ps.len() && (#[trigger] ps[b]).id == p2.id implies b == a by {
        if b < a {
            assert(ps[b].id != ps[a].id);
        } else if a < b {
            assert(ps[a].id != ps[b].id);
        }
    }
}

/// Removing a provider that a normalized record does not hold leaves its
/// credentials as they were, in content and order.
pub proof fn lemma_remove_absent(c: CacheModel, id: Seq<char>, ts: Seq<char>)
    requires
        is_normalized(c),
        forall|k: int| 0 <= k < c.dns_providers.len() ==> (#[trigger] c.dns_providers[k]).id != id,
    ensures
        removed(c, id, ts).dns_providers == c.dns_providers,
{
    lemma_normalized_valid(c);
    lemma_canonical_unchanged(c.dns_providers);
    lemma_without_absent(c.dns_providers, id);
}

/// Loading what a load gave, without a change in between, gives the same
/// record but for its timestamp.
pub proof fn lemma_reload_changes_only_timestamp(
    parsed: Option<CacheModel>,
    t1: Seq<char>,
    t2: Seq<char>,
)
    ensures
        loaded(Some(loaded(parsed, t1)), t2) == with_timestamp(loaded(parsed, t1), t2),
{
    match parsed {
        Some(c) => lemma_normalize_idempotent(c, t1, t2),
        None => lemma_normalize_idempotent(empty_model(), t1, t2),
    }
}

impl Cache {
    /// Creates a new cache instance with default values.
    pub fn new() -> (r: Cache)
        ensures
            r@ == normalized(empty_model(), r@.timestamp),
    {
        let mut cache = Cache {
            metadata: Metadata {
                warning: String::new(),
                name: String::new(),
                version: String::new(),
                description: String::new(),
                homepage: String::new(),
                timestamp: String::new(),
            },
            data: Data {
                ipv4_address: String::new(),
                ipv6_address: String::new(),
                dns_providers: Vec::new(),
            },
        };
        cache.fmt();
        cache
    }

    /// Brings the record into canonical form and stamps it with `timestamp`.
    pub fn fmt_at(&mut self, timestamp: String)
        ensures
            final(self)@ == normalized(old(self)@, timestamp@),
    {
        self.metadata.warning = String::from_str(WARNING);
        self.metadata.name = String::from_str(NAME);
        self.metadata.version = String::from_str(VERSION);
        self.metadata.description = String::from_str(DESCRIPTION);
        self.metadata.homepage = String::from_str(HOMEPAGE);
        if !is_ipv4(self.data.ipv4_address.as_str()) {
            self.data.ipv4_address = String::from_str(IPV4_DEFAULT);
        }
        if !is_ipv6(self.data.ipv6_address.as_str()) {
            self.data.ipv6_address = String::from_str(IPV6_DEFAULT);
        }
        let kept = retain_latest_supported(&self.data.dns_providers);
        self.data.dns_providers = kept;
        self.metadata.timestamp = timestamp;
    }

    /// Brings the record into canonical form and stamps it with the local
    /// time now.
    pub fn fmt(&mut self)
        ensures
            final(self)@ == normalized(old(self)@, final(self)@.timestamp),
    {
        let now = local_timestamp();
        self.fmt_at(now);
    }

    /// The record that loading gives: `parsed` brought into canonical form,
    /// or, where the file did not decode (`None`), a new record.
    pub fn restore(parsed: Option<Cache>) -> (r: Cache)
        ensures
            r@ == loaded(
                match parsed {
                    Some(c) => Some(c@),
                    None => None,
                },
                r@.timestamp,
            ),
    {
        match parsed {
            Some(c) => {
                let mut c = c;
                c.fmt();
                c
            },
            None => Cache::new(),
        }
    }

    /// Adds a DNS provider to the cache. If the DNS provider already exists
    /// in the cache, it is replaced with the new one.
    pub fn add_dns_provider(&mut self, id: String, api_key: String, secret_api_key: String)
        ensures
            final(self)@ == added(
                old(self)@,
                ProviderModel { id: id@, api_key: api_key@, secret_api_key: secret_api_key@ },
                final(self)@.timestamp,
            ),
    {
        self.fmt();
        let ghost mid = self@;
        let p = DNSProvider { id, api_key, secret_api_key };
        self.data.dns_providers.push(p);
        assert(self@.dns_providers =~= mid.dns_providers.push(p@));
        self.fmt();
    }

    /// Removes a DNS provider from the cache. If the DNS provider does not
    /// exist in the cache, nothing happens.
    pub fn remove_dns_provider(&mut self, id: String)
        ensures
            final(self)@ == removed(old(self)@, id@, final(self)@.timestamp),
    {
        self.fmt();
        let kept = without_provider(&self.data.dns_providers, &id);
        self.data.dns_providers = kept;
        self.fmt();
    }
}

impl Default for Cache {
    fn default() -> (r: Cache)
        ensures
            r@ == normalized(empty_model(), r@.timestamp),
    {
        Cache::new()
    }
}

} // verus!
