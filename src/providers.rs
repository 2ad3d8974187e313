//! Provider credentials and the pass that keeps one entry per supported
//! provider: the one appended last.

use vstd::prelude::*;

verus! {

/// The API credentials of one DNS provider.
#[derive(Debug, Clone)]
pub struct DNSProvider {
    pub id: String,
    pub api_key: String,
    pub secret_api_key: String,
}

/// What a credential holds, as text.
pub struct ProviderModel {
    pub id: Seq<char>,
    pub api_key: Seq<char>,
    pub secret_api_key: Seq<char>,
}

impl View for DNSProvider {
    type V = ProviderModel;

    open spec fn view(&self) -> ProviderModel {
        ProviderModel { id: self.id@, api_key: self.api_key@, secret_api_key: self.secret_api_key@ }
    }
}

/// The credentials of a list, in order, as text.
pub open spec fn models(v: Seq<DNSProvider>) -> Seq<ProviderModel> {
    v.map_values(|p: DNSProvider| p@)
}

/// The identifiers of the providers this client can update.
pub open spec fn is_supported_provider(id: Seq<char>) -> bool {
    ||| id == "alibabacloud"@
    ||| id == "bluehost"@
    ||| id == "cloudflare"@
    ||| id == "dnspod"@
    ||| id == "dreamhost"@
    ||| id == "dynadot"@
    ||| id == "enom"@
    ||| id == "epik"@
    ||| id == "gandi"@
    ||| id == "godaddy"@
    ||| id == "hover"@
    ||| id == "ionos"@
    ||| id == "namecheap"@
    ||| id == "namesilo"@
    ||| id == "opensrs"@
    ||| id == "ovh"@
    ||| id == "porkbun"@
    ||| id == "resellerclub"@
}

/// A later entry of `s` has the same identifier as entry `i`.
pub open spec fn superseded(s: Seq<ProviderModel>, i: int) -> bool {
    exists|j: int| i < j < s.len() && #[trigger] s[j].id == s[i].id
}

/// Entry `i` of `s` stays: its provider is supported and no later entry
/// replaces it.
pub open spec fn survives(s: Seq<ProviderModel>, i: int) -> bool {
    is_supported_provider(s[i].id) && !superseded(s, i)
}

/// The entries among the first `k` of `s` that stay, in their order.
pub open spec fn survivors_upto(s: Seq<ProviderModel>, k: int) -> Seq<ProviderModel>
    decreases k,
{
    if k <= 0 {
        Seq::empty()
    } else {
        let r = survivors_upto(s, k - 1);
        if survives(s, k - 1) {
            r.push(s[k - 1])
        } else {
            r
        }
    }
}

/// `s` with every unsupported entry dropped and, for each provider, all but
/// its last entry dropped; the order of what is kept is unchanged.
pub open spec fn latest_supported(s: Seq<ProviderModel>) -> Seq<ProviderModel> {
    survivors_upto(s, s.len() as int)
}

/// Every entry names a supported provider, and no two name the same one.
pub open spec fn is_canonical(s: Seq<ProviderModel>) -> bool {
    &&& forall|k: int| 0 <= k < s.len() ==> is_supported_provider(#[trigger] s[k].id)
    &&& forall|a: int, b: int| 0 <= a < b < s.len() ==> #[trigger] s[a].id != #[trigger] s[b].id
}

/// `s` without the entries whose identifier is `id`.
pub open spec fn without_id(s: Seq<ProviderModel>, id: Seq<char>) -> Seq<ProviderModel>
    decreases s.len(),
{
    if s.len() == 0 {
        s
    } else {
        let r = without_id(s.drop_last(), id);
        if s.last().id == id {
            r
        } else {
            r.push(s.last())
        }
    }
}

/// `x` is a surviving entry of `s` before position `k`.
pub open spec fn survivor_before(s: Seq<ProviderModel>, k: int, x: ProviderModel) -> bool {
    exists|i: int| 0 <= i < k && survives(s, i) && x == s[i]
}

/// Each of the first `k` survivors of `s` is a surviving entry of `s`
/// before `k`.
proof fn lemma_survivors_source(s: Seq<ProviderModel>, k: int)
    requires
        0 <= k <= s.len(),
    ensures
        forall|a: int|
            0 <= a < survivors_upto(s, k).len() ==> survivor_before(s, k, #[trigger] survivors_upto(s, k)[a]),
    decreases k,
{
    if k > 0 {
        lemma_survivors_source(s, k - 1);
        let r = survivors_upto(s, k - 1);
        let t = survivors_upto(s, k);
        assert forall|a: int| 0 <= a < t.len() implies survivor_before(s, k, #[trigger] t[a]) by {
            if a < r.len() {
                assert(t[a] == r[a]);
                assert(survivor_before(s, k - 1, r[a]));
                let i = choose|i: int| 0 <= i < k - 1 && survives(s, i) && r[a] == s[i];
                assert(0 <= i < k && survives(s, i) && t[a] == s[i]);
            } else {
                assert(0 <= k - 1 < k && survives(s, k - 1) && t[a] == s[k - 1]);
            }
        }
    }
}

/// Every surviving entry of `s` before `k` is among the first `k`
/// survivors.
proof fn lemma_survivors_complete(s: Seq<ProviderModel>, k: int)
    requires
        0 <= k <= s.len(),
    ensures
        forall|i: int| 0 <= i < k && #[trigger] survives(s, i) ==> survivors_upto(s, k).contains(s[i]),
    decreases k,
{
    if k > 0 {
        lemma_survivors_complete(s, k - 1);
        let r = survivors_upto(s, k - 1);
        let t = survivors_upto(s, k);
        assert forall|i: int| 0 <= i < k && #[trigger] survives(s, i) implies t.contains(s[i]) by {
            if i == k - 1 {
                assert(t[r.len() as int] == s[i]);
            } else {
                assert(r.contains(s[i]));
                let a = choose|a: int| 0 <= a < r.len() && r[a] == s[i];
                assert(t[a] == s[i]);
            }
        }
    }
}

/// The first `k` survivors of `s` form a canonical list.
proof fn lemma_survivors_canonical(s: Seq<ProviderModel>, k: int)
    requires
        0 <= k <= s.len(),
    ensures
        is_canonical(survivors_upto(s, k)),
    decreases k,
{
    if k > 0 {
        lemma_survivors_canonical(s, k - 1);
        lemma_survivors_source(s, k - 1);
        let r = survivors_upto(s, k - 1);
        let t = survivors_upto(s, k);
        if survives(s, k - 1) {
            assert forall|a: int| 0 <= a < r.len() implies #[trigger] r[a].id != s[k - 1].id by {
                let i = choose|i: int| 0 <= i < k - 1 && survives(s, i) && r[a] == s[i];
                assert(!superseded(s, i));
            }
            assert forall|a: int, b: int| 0 <= a < b < t.len() implies #[trigger] t[a].id
                != #[trigger] t[b].id by {
                if b == r.len() {
                    assert(r[a].id != s[k - 1].id);
                } else {
                    assert(r[a].id != r[b].id);
                }
            }
        }
    }
}

/// Normalizing a list of credentials leaves only supported providers, at
/// most one entry each; that entry is the last one the list held for its
/// provider, and every supported provider of the list keeps its last entry.
pub proof fn lemma_latest_supported(s: Seq<ProviderModel>)
    ensures
        is_canonical(latest_supported(s)),
        forall|a: int|
            0 <= a < latest_supported(s).len() ==> survivor_before(
                s,
                s.len() as int,
                #[trigger] latest_supported(s)[a],
            ),
        forall|i: int|
            0 <= i < s.len() && #[trigger] survives(s, i) ==> latest_supported(s).contains(s[i]),
{
    lemma_survivors_canonical(s, s.len() as int);
    lemma_survivors_source(s, s.len() as int);
    lemma_survivors_complete(s, s.len() as int);
}

/// A canonical list is left as it is.
pub proof fn lemma_canonical_unchanged(s: Seq<ProviderModel>)
    requires
        is_canonical(s),
    ensures
        latest_supported(s) == s,
{
    assert forall|k: int| 0 <= k <= s.len() implies #[trigger] survivors_upto(s, k) == s.take(k) by {
        lemma_canonical_prefix(s, k);
    }
    assert(s.take(s.len() as int) =~= s);
}

/// In a canonical list every entry survives, so its first `k` survivors
/// are its first `k` entries.
proof fn lemma_canonical_prefix(s: Seq<ProviderModel>, k: int)
    requires
        is_canonical(s),
        0 <= k <= s.len(),
    ensures
        survivors_upto(s, k) == s.take(k),
    decreases k,
{
    if k > 0 {
        lemma_canonical_prefix(s, k - 1);
        assert(!superseded(s, k - 1)) by {
            if superseded(s, k - 1) {
                let j = choose|j: int| k - 1 < j < s.len() && #[trigger] s[j].id == s[k - 1].id;
                assert(s[k - 1].id != s[j].id);
            }
        }
        assert(s.take(k - 1).push(s[k - 1]) =~= s.take(k));
    }
}

/// Appending a credential of a supported provider and normalizing leaves
/// exactly one entry for that provider: the appended one.
pub proof fn lemma_push_supported(s: Seq<ProviderModel>, p: ProviderModel)
    requires
        is_supported_provider(p.id),
    ensures
        exists|a: int|
            0 <= a < latest_supported(s.push(p)).len() && latest_supported(s.push(p))[a] == p,
        forall|a: int|
            0 <= a < latest_supported(s.push(p)).len() && (#[trigger] latest_supported(
                s.push(p),
            )[a]).id == p.id ==> latest_supported(s.push(p))[a] == p,
{
    let t = s.push(p);
    let n = s.len() as int;
    let r = latest_supported(t);
    lemma_latest_supported(t);
    assert(t[n] == p);
    assert(survives(t, n));
    assert forall|a: int| 0 <= a < r.len() && (#[trigger] r[a]).id == p.id implies r[a] == p by {
        let i = choose|i: int| 0 <= i < t.len() && survives(t, i) && r[a] == t[i];
        if i < n {
            assert(t[n].id == t[i].id);
            assert(superseded(t, i));
        }
    }
}

/// Dropping an identifier that no entry has leaves the list as it is.
pub proof fn lemma_without_absent(s: Seq<ProviderModel>, id: Seq<char>)
    requires
        forall|k: int| 0 <= k < s.len() ==> (#[trigger] s[k]).id != id,
    ensures
        without_id(s, id) == s,
    decreases s.len(),
{
    if s.len() > 0 {
        lemma_without_absent(s.drop_last(), id);
        assert(s.drop_last().push(s.last()) =~= s);
    }
}

/// Whether `id` names a supported provider.
pub fn is_supported(id: &String) -> (r: bool)
    ensures
        r == is_supported_provider(id@),
{
    let names: [&'static str; 18] = [
        "alibabacloud",
        "bluehost",
        "cloudflare",
        "dnspod",
        "dreamhost",
        "dynadot",
        "enom",
        "epik",
        "gandi",
        "godaddy",
        "hover",
        "ionos",
        "namecheap",
        "namesilo",
        "opensrs",
        "ovh",
        "porkbun",
        "resellerclub",
    ];
    let mut i: usize = 0;
    while i < 18
        invariant
            0 <= i <= 18,
            names@ == seq![
                "alibabacloud",
                "bluehost",
                "cloudflare",
                "dnspod",
                "dreamhost",
                "dynadot",
                "enom",
                "epik",
                "gandi",
                "godaddy",
                "hover",
                "ionos",
                "namecheap",
                "namesilo",
                "opensrs",
                "ovh",
                "porkbun",
                "resellerclub",
            ],
            forall|k: int| 0 <= k < i ==> id@ != (#[trigger] names@[k])@,
        decreases 18 - i,
    {
        let name = String::from_str(names[i]);
        if *id == name {
            return true;
        }
        i = i + 1;
    }
    assert(id@ != names@[0]@ && id@ != names@[1]@ && id@ != names@[2]@ && id@ != names@[3]@);
    assert(id@ != names@[4]@ && id@ != names@[5]@ && id@ != names@[6]@ && id@ != names@[7]@);
    assert(id@ != names@[8]@ && id@ != names@[9]@ && id@ != names@[10]@ && id@ != names@[11]@);
    assert(id@ != names@[12]@ && id@ != names@[13]@ && id@ != names@[14]@ && id@ != names@[15]@);
    assert(id@ != names@[16]@ && id@ != names@[17]@);
    false
}

/// A copy of `p`.
fn copy_provider(p: &DNSProvider) -> (r: DNSProvider)
    ensures
        r@ == p@,
{
    DNSProvider { id: p.id.clone(), api_key: p.api_key.clone(), secret_api_key: p.secret_api_key.clone() }
}

/// Whether an entry after position `i` has the same identifier as entry `i`.
fn has_later_duplicate(v: &Vec<DNSProvider>, i: usize) -> (r: bool)
    requires
        i < v.len(),
    ensures
        r == superseded(models(v@), i as int),
{
    let ghost s = models(v@);
    let mut j: usize = i + 1;
    while j < v.len()
        invariant
            i < j <= v.len(),
            s == models(v@),
            forall|k: int| i < k < j ==> #[trigger] s[k].id != s[i as int].id,
        decreases v.len() - j,
    {
        if v[j].id == v[i].id {
            assert(s[j as int].id == s[i as int].id);
            return true;
        }
        j = j + 1;
    }
    false
}

/// The entries of `v` that normalization keeps: for each supported provider
/// its last entry, in the order of `v`.
pub fn retain_latest_supported(v: &Vec<DNSProvider>) -> (r: Vec<DNSProvider>)
    ensures
        models(r@) == latest_supported(models(v@)),
{
    let ghost s = models(v@);
    let mut out: Vec<DNSProvider> = Vec::new();
    let mut i: usize = 0;
    assert(models(out@) =~= survivors_upto(s, 0));
    while i < v.len()
        invariant
            0 <= i <= v.len(),
            s == models(v@),
            models(out@) == survivors_upto(s, i as int),
        decreases v.len() - i,
    {
        if is_supported(&v[i].id) && !has_later_duplicate(v, i) {
            let p = copy_provider(&v[i]);
            let ghost before = out@;
            out.push(p);
            assert(models(out@) =~= models(before).push(p@));
        }
        i = i + 1;
    }
    out
}

/// `v` without the entries whose identifier is `id`, in the order of `v`.
pub fn without_provider(v: &Vec<DNSProvider>, id: &String) -> (r: Vec<DNSProvider>)
    ensures
        models(r@) == without_id(models(v@), id@),
{
    let ghost s = models(v@);
    let mut out: Vec<DNSProvider> = Vec::new();
    let mut i: usize = 0;
    assert(models(out@) =~= without_id(s.take(0), id@));
    while i < v.len()
        invariant
            0 <= i <= v.len(),
            s == models(v@),
            models(out@) == without_id(s.take(i as int), id@),
        decreases v.len() - i,
    {
        assert(s.take(i as int + 1).drop_last() =~= s.take(i as int));
        if v[i].id != *id {
            let p = copy_provider(&v[i]);
            let ghost before = out@;
            out.push(p);
            assert(models(out@) =~= models(before).push(p@));
        }
        i = i + 1;
    }
    assert(s.take(v.len() as int) =~= s);
    out
}

} // verus!
