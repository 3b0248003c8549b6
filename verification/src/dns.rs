//! DNS configuration and the decisions of the caching resolver: when a
//! cached answer is served, when it is refreshed in the background, when a
//! stale answer covers for a failed lookup, and which answers may be stored.
use vstd::prelude::*;
use crate::error::CatcherError;
use crate::strmap::{StrMap, pair_view};

verus! {

/// How names are resolved.
#[derive(Debug, Clone, Copy, PartialEq, Eq, Structural)]
pub enum DnsMode {
    /// The caching resolver with host mapping and stale answers (the default of this type).
    Catcher,
    /// The protocol library's own resolution.
    Native,
}

impl Default for DnsMode {
    fn default() -> (r: Self)
        ensures
            r == DnsMode::Catcher,
    {
        DnsMode::Catcher
    }
}

/// DNS settings.
#[derive(Debug, Clone)]
pub struct DnsConfig {
    pub mode: DnsMode,
    /// Most cached names.
    pub cache_size: u64,
    /// Seconds a cached answer is fresh.
    pub cache_ttl_secs: u32,
    /// Seconds a failed lookup is remembered.
    pub negative_ttl_secs: u32,
    /// Seconds past freshness during which an answer is still served.
    pub stale_ttl_secs: u32,
    /// Whether a stale answer covers for a failed lookup.
    pub stale_on_error: bool,
    /// Name servers such as `8.8.8.8:53`.
    pub nameservers: Vec<String>,
    /// Fixed addresses of host names.
    pub host_mapping: StrMap,
    /// Whether the built-in name servers are used when the system's cannot be read.
    pub fallback_to_default_nameservers: bool,
}

impl DnsConfig {
    /// Whether the caching resolver is used.
    pub fn use_catcher_resolver(&self) -> (r: bool)
        ensures
            r == (self.mode == DnsMode::Catcher),
    {
        self.mode == DnsMode::Catcher
    }
}

pub fn default_dns_cache_size() -> (r: u64)
    ensures
        r == 512,
{
    512
}

pub fn default_dns_cache_ttl() -> (r: u32)
    ensures
        r == 300,
{
    300
}

pub fn default_dns_negative_ttl() -> (r: u32)
    ensures
        r == 60,
{
    60
}

pub fn default_dns_stale_ttl() -> (r: u32)
    ensures
        r == 3600,
{
    3600
}

impl Default for DnsConfig {
    /// The caching resolver: 512 names, fresh for 5 minutes, failures
    /// remembered for a minute, stale answers served for an hour and on
    /// errors, system name servers, no host mapping.
    fn default() -> (r: Self)
        ensures
            r.mode == DnsMode::Catcher,
            r.cache_size == 512,
            r.cache_ttl_secs == 300,
            r.negative_ttl_secs == 60,
            r.stale_ttl_secs == 3600,
            r.stale_on_error,
            r.nameservers@.len() == 0,
            r.host_mapping.wf(),
            r.host_mapping@ == Map::<Seq<char>, Seq<char>>::empty(),
            !r.fallback_to_default_nameservers,
    {
        DnsConfig {
            mode: DnsMode::Catcher,
            cache_size: default_dns_cache_size(),
            cache_ttl_secs: default_dns_cache_ttl(),
            negative_ttl_secs: default_dns_negative_ttl(),
            stale_ttl_secs: default_dns_stale_ttl(),
            stale_on_error: crate::resilience::default_true(),
            nameservers: Vec::new(),
            host_mapping: StrMap::new(),
            fallback_to_default_nameservers: false,
        }
    }
}

/// How old a cached answer is, against its time to live and its stale
/// allowance.
#[derive(Debug, Clone, Copy, PartialEq, Eq, Structural)]
pub enum CacheFreshness {
    /// Younger than the time to live.
    Fresh,
    /// Past the time to live, within the stale allowance.
    Stale,
    /// Past both.
    Expired,
}

/// The freshness of an answer `age_ms` milliseconds old.
pub open spec fn freshness_spec(age_ms: u64, ttl_secs: u32, stale_secs: u32) -> CacheFreshness {
    if age_ms < ttl_secs * 1000 {
        CacheFreshness::Fresh
    } else if age_ms < (ttl_secs + stale_secs) * 1000 {
        CacheFreshness::Stale
    } else {
        CacheFreshness::Expired
    }
}

pub fn cache_freshness(age_ms: u64, ttl_secs: u32, stale_secs: u32) -> (r: CacheFreshness)
    ensures
        r == freshness_spec(age_ms, ttl_secs, stale_secs),
{
    let ttl_ms: u64 = ttl_secs as u64 * 1000;
    let total_ms: u64 = (ttl_secs as u64 + stale_secs as u64) * 1000;
    if age_ms < ttl_ms {
        CacheFreshness::Fresh
    } else if age_ms < total_ms {
        CacheFreshness::Stale
    } else {
        CacheFreshness::Expired
    }
}

/// What a lookup of a name does.
#[derive(Debug, Clone, Copy, PartialEq, Eq, Structural)]
pub enum LookupPlan {
    /// Answer with the fixed mapping.
    Mapped,
    /// Answer with the cached addresses.
    Cached,
    /// Answer with the cached addresses and refresh them in the background.
    CachedAndRefresh,
    /// Ask the name servers.
    Resolve,
}

/// The plan of a lookup: a mapped name is answered from the mapping; a
/// cached answer is served while fresh, and while stale too, with one
/// background refresh started unless one is already running; anything else
/// is resolved.
pub open spec fn lookup_spec(
    mapped: bool,
    cached_age_ms: Option<u64>,
    ttl_secs: u32,
    stale_secs: u32,
    refreshing: bool,
) -> LookupPlan {
    if mapped {
        LookupPlan::Mapped
    } else {
        match cached_age_ms {
            None => LookupPlan::Resolve,
            Some(age) => match freshness_spec(age, ttl_secs, stale_secs) {
                CacheFreshness::Fresh => LookupPlan::Cached,
                CacheFreshness::Stale => if refreshing {
                    LookupPlan::Cached
                } else {
                    LookupPlan::CachedAndRefresh
                },
                CacheFreshness::Expired => LookupPlan::Resolve,
            },
        }
    }
}

pub fn plan_lookup(
    mapped: bool,
    cached_age_ms: Option<u64>,
    ttl_secs: u32,
    stale_secs: u32,
    refreshing: bool,
) -> (r: LookupPlan)
    ensures
        r == lookup_spec(mapped, cached_age_ms, ttl_secs, stale_secs, refreshing),
{
    if mapped {
        return LookupPlan::Mapped;
    }
    match cached_age_ms {
        None => LookupPlan::Resolve,
        Some(age) => match cache_freshness(age, ttl_secs, stale_secs) {
            CacheFreshness::Fresh => LookupPlan::Cached,
            CacheFreshness::Stale => if refreshing {
                LookupPlan::Cached
            } else {
                LookupPlan::CachedAndRefresh
            },
            CacheFreshness::Expired => LookupPlan::Resolve,
        },
    }
}

/// Whether a lookup answered by the name servers may stay in the cache: only
/// when the cache was not cleared (a network change) while it ran.
pub fn keep_resolved(generation_at_start: u64, generation_now: u64) -> (r: bool)
    ensures
        r == (generation_at_start == generation_now),
{
    generation_at_start == generation_now
}

/// What a failed lookup answers.
#[derive(Debug, Clone, Copy, PartialEq, Eq, Structural)]
pub enum FailurePlan {
    /// The cached addresses.
    UseCached,
    /// The error.
    Fail,
}

/// A failed lookup is answered from the cache only when stale answers may
/// cover for errors and one is cached.
pub fn on_lookup_failure(stale_on_error: bool, cached: bool) -> (r: FailurePlan)
    ensures
        r == (if stale_on_error && cached {
            FailurePlan::UseCached
        } else {
            FailurePlan::Fail
        }),
{
    if stale_on_error && cached {
        FailurePlan::UseCached
    } else {
        FailurePlan::Fail
    }
}

/// A name with a fixed mapping is never looked up nor served from the
/// cache.
pub proof fn law_mapping_wins(
    cached_age_ms: Option<u64>,
    ttl_secs: u32,
    stale_secs: u32,
    refreshing: bool,
)
    ensures
        lookup_spec(true, cached_age_ms, ttl_secs, stale_secs, refreshing) == LookupPlan::Mapped,
{
}

/// An answer is never served from the cache once it is older than its time
/// to live and stale allowance together; a fresh one is served without a
/// refresh.
pub proof fn law_cache_served_within_allowance(
    age_ms: u64,
    ttl_secs: u32,
    stale_secs: u32,
    refreshing: bool,
)
    ensures
        age_ms >= (ttl_secs + stale_secs) * 1000 ==> lookup_spec(
            false,
            Some(age_ms),
            ttl_secs,
            stale_secs,
            refreshing,
        ) == LookupPlan::Resolve,
        age_ms < ttl_secs * 1000 ==> lookup_spec(
            false,
            Some(age_ms),
            ttl_secs,
            stale_secs,
            refreshing,
        ) == LookupPlan::Cached,
{
}

/// At most one background refresh runs per name: a stale answer starts one
/// only when none is running.
pub proof fn law_single_refresh(age_ms: u64, ttl_secs: u32, stale_secs: u32)
    ensures
        lookup_spec(false, Some(age_ms), ttl_secs, stale_secs, true) != LookupPlan::CachedAndRefresh,
{
}

/// The address an IP literal parses to, as its 4 or 16 octets; `None` when
/// the text is not an IP address.
pub uninterp spec fn ip_octets(s: Seq<char>) -> Option<Seq<u8>>;

/// Parses an IP address (`core::net::IpAddr::from_str`), giving its octets.
/// The result is claimed to be the named parse of the text, with 4 octets
/// for IPv4 and 16 for IPv6.
#[verifier::external_body]
fn parse_ip(s: &str) -> (r: Option<Vec<u8>>)
    ensures
        match r {
            Some(v) => ip_octets(s@) == Some(v@) && (v@.len() == 4 || v@.len() == 16),
            None => ip_octets(s@) is None,
        },
{
    match s.parse::<core::net::IpAddr>() {
        Ok(core::net::IpAddr::V4(a)) => Some(a.octets().to_vec()),
        Ok(core::net::IpAddr::V6(a)) => Some(a.octets().to_vec()),
        Err(_) => None,
    }
}

/// The message for a mapping entry whose address does not parse.
pub open spec fn invalid_mapping_message(host: Seq<char>, ip: Seq<char>) -> Seq<char> {
    "dns.host_mapping: invalid IP '"@ + ip + "' for host '"@ + host + "'"@
}

/// The parsed addresses of a mapping's entries as byte sequences.
pub open spec fn parsed_view(ps: Seq<Option<Vec<u8>>>) -> Seq<Option<Seq<u8>>> {
    ps.map_values(
        |d: Option<Vec<u8>>|
            match d {
                Some(v) => Some(v@),
                None => None,
            },
    )
}

/// Every entry parsed, up to entry `n`.
pub open spec fn all_parsed(parsed: Seq<Option<Seq<u8>>>, n: int) -> bool {
    forall|i: int| 0 <= i < n ==> #[trigger] parsed[i] is Some
}

/// Entry `i` is the first whose address did not parse, and `e` is the
/// invalid-configuration error that names it.
pub open spec fn first_unparsed(
    p: Seq<(Seq<char>, Seq<char>)>,
    parsed: Seq<Option<Seq<u8>>>,
    i: int,
    e: CatcherError,
) -> bool {
    &&& 0 <= i < p.len()
    &&& all_parsed(parsed, i)
    &&& parsed[i] is None
    &&& e is InvalidConfig
    &&& e->InvalidConfig_0@ == invalid_mapping_message(p[i].0, p[i].1)
}

/// A host mapping from its entries and the parsed address of each entry,
/// in order. The first entry whose address did not parse fails the whole
/// mapping with an invalid-configuration error naming it.
pub fn host_mapping_from(mapping: &StrMap, parsed: &Vec<Option<Vec<u8>>>) -> (r: Result<
    Vec<(String, Vec<u8>)>,
    CatcherError,
>)
    requires
        parsed@.len() == mapping.pairs().len(),
    ensures
        ({
            let p = mapping.pairs();
            let q = parsed_view(parsed@);
            match r {
                Ok(v) => all_parsed(q, p.len() as int) && v@.len() == p.len() && forall|i: int|
                    0 <= i < p.len() ==> (#[trigger] v@[i]).0@ == p[i].0 && Some(v@[i].1@) == q[i],
                Err(e) => exists|i: int| #[trigger] first_unparsed(p, q, i, e),
            }
        }),
{
    let entries = mapping.entries();
    let ghost p = mapping.pairs();
    let ghost q = parsed_view(parsed@);
    let mut out: Vec<(String, Vec<u8>)> = Vec::new();
    let mut i: usize = 0;
    while i < entries.len()
        invariant
            p == mapping.pairs(),
            q == parsed_view(parsed@),
            pair_view(entries@) == p,
            parsed@.len() == p.len(),
            i <= entries.len(),
            out@.len() == i,
            all_parsed(q, i as int),
            forall|j: int| 0 <= j < i ==> (#[trigger] out@[j]).0@ == p[j].0 && Some(out@[j].1@) == q[j],
        decreases entries.len() - i,
    {
        let host = &entries[i].0;
        let ip = &entries[i].1;
        assert(p[i as int] == (host@, ip@));
        match &parsed[i] {
            Some(octets) => {
                let mut bytes: Vec<u8> = Vec::new();
                let mut k: usize = 0;
                while k < octets.len()
                    invariant
                        k <= octets.len(),
                        bytes@ == octets@.take(k as int),
                    decreases octets.len() - k,
                {
                    bytes.push(octets[k]);
                    k += 1;
                    assert(bytes@ =~= octets@.take(k as int));
                }
                assert(octets@.take(octets.len() as int) =~= octets@);
                assert(q[i as int] == Some(octets@));
                out.push((host.clone(), bytes));
            },
            None => {
                let mut msg = String::from_str("dns.host_mapping: invalid IP '");
                msg.append(ip.as_str());
                msg.append("' for host '");
                msg.append(host.as_str());
                msg.append("'");
                assert(msg@ =~= invalid_mapping_message(host@, ip@));
                let e = CatcherError::InvalidConfig(msg);
                assert(q[i as int] is None);
                assert(first_unparsed(p, q, i as int, e));
                return Err(e);
            },
        }
        i += 1;
    }
    Ok(out)
}

/// Parses the addresses of a host mapping, keeping its order. The first
/// entry whose address is not an IP address fails the whole mapping with
/// an invalid-configuration error naming it.
pub fn parse_host_mapping(mapping: &StrMap) -> (r: Result<Vec<(String, Vec<u8>)>, CatcherError>)
    ensures
        ({
            let p = mapping.pairs();
            let q = p.map_values(|e: (Seq<char>, Seq<char>)| ip_octets(e.1));
            match r {
                Ok(v) => all_parsed(q, p.len() as int) && v@.len() == p.len() && forall|i: int|
                    0 <= i < p.len() ==> (#[trigger] v@[i]).0@ == p[i].0 && Some(v@[i].1@) == ip_octets(
                        p[i].1,
                    ),
                Err(e) => exists|i: int| #[trigger] first_unparsed(p, q, i, e),
            }
        }),
{
    let entries = mapping.entries();
    let ghost p = mapping.pairs();
    let ghost want = p.map_values(|e: (Seq<char>, Seq<char>)| ip_octets(e.1));
    let mut parsed: Vec<Option<Vec<u8>>> = Vec::new();
    let mut i: usize = 0;
    while i < entries.len()
        invariant
            p == mapping.pairs(),
            want == p.map_values(|e: (Seq<char>, Seq<char>)| ip_octets(e.1)),
            pair_view(entries@) == p,
            i <= entries.len(),
            parsed_view(parsed@) == want.take(i as int),
        decreases entries.len() - i,
    {
        assert(p[i as int] == (entries@[i as int].0@, entries@[i as int].1@));
        let d = parse_ip(entries[i].1.as_str());
        let ghost before = parsed@;
        parsed.push(d);
        proof {
            assert(parsed_view(parsed@) =~= parsed_view(before).push(
                match d {
                    Some(v) => Some(v@),
                    None => None,
                },
            ));
            assert(want.take(i + 1) =~= want.take(i as int).push(want[i as int]));
        }
        i += 1;
    }
    assert(want.take(entries.len() as int) =~= want);
    host_mapping_from(mapping, &parsed)
}

/// A name server's address: its IP octets (4 for IPv4, 16 for IPv6), its
/// port, and its IPv6 scope id (0 for IPv4).
pub type NameServerAddr = (Vec<u8>, u16, u32);

/// What `SocketAddr::from_str` makes of a text: the address as octets,
/// port and scope id, or the text of its error.
pub uninterp spec fn socket_addr_parse(s: Seq<char>) -> Result<(Seq<u8>, u16, u32), Seq<char>>;

/// Parses a socket address (`core::net::SocketAddr::from_str`). The result
/// is claimed to be the named parse of the text, with 4 octets for IPv4
/// and 16 for IPv6, and the error's text when it is refused.
#[verifier::external_body]
fn parse_socket_addr(s: &str) -> (r: Result<NameServerAddr, String>)
    ensures
        match r {
            Ok(a) => socket_addr_parse(s@) == Ok::<(Seq<u8>, u16, u32), Seq<char>>((a.0@, a.1, a.2))
                && (a.0@.len() == 4 || a.0@.len() == 16),
            Err(m) => socket_addr_parse(s@) == Err::<(Seq<u8>, u16, u32), Seq<char>>(m@),
        },
{
    match s.parse::<core::net::SocketAddr>() {
        Ok(core::net::SocketAddr::V4(a)) => Ok((a.ip().octets().to_vec(), a.port(), 0)),
        Ok(core::net::SocketAddr::V6(a)) => Ok((a.ip().octets().to_vec(), a.port(), a.scope_id())),
        Err(e) => Err(e.to_string()),
    }
}

/// A parsed name server as plain values.
pub open spec fn ns_view(a: Result<NameServerAddr, String>) -> Result<(Seq<u8>, u16, u32), Seq<char>> {
    match a {
        Ok(x) => Ok((x.0@, x.1, x.2)),
        Err(m) => Err(m@),
    }
}

/// The message for a name server that does not parse.
pub open spec fn invalid_nameserver_message(ns: Seq<char>, reason: Seq<char>) -> Seq<char> {
    "invalid nameserver '"@ + ns + "': "@ + reason
}

/// Every name server parsed, up to entry `n`.
pub open spec fn all_ns_parsed(parsed: Seq<Result<(Seq<u8>, u16, u32), Seq<char>>>, n: int) -> bool {
    forall|i: int| 0 <= i < n ==> #[trigger] parsed[i] is Ok
}

/// Entry `i` is the first name server that did not parse, and `e` is the
/// invalid-configuration error that names it with the parser's reason.
pub open spec fn first_bad_nameserver(
    texts: Seq<Seq<char>>,
    parsed: Seq<Result<(Seq<u8>, u16, u32), Seq<char>>>,
    i: int,
    e: CatcherError,
) -> bool {
    &&& 0 <= i < texts.len()
    &&& all_ns_parsed(parsed, i)
    &&& parsed[i] matches Err(reason) && e is InvalidConfig && e->InvalidConfig_0@
        == invalid_nameserver_message(texts[i], reason)
}

/// The configured name servers from their texts and the parse of each, in
/// order. The first that did not parse fails them all with an
/// invalid-configuration error naming it and the parser's reason.
pub fn nameservers_from(texts: &Vec<String>, parsed: &Vec<Result<NameServerAddr, String>>) -> (r: Result<
    Vec<NameServerAddr>,
    CatcherError,
>)
    requires
        parsed@.len() == texts@.len(),
    ensures
        ({
            let t = texts@.map_values(|x: String| x@);
            let q = parsed@.map_values(|a: Result<NameServerAddr, String>| ns_view(a));
            match r {
                Ok(v) => all_ns_parsed(q, t.len() as int) && v@.len() == t.len() && forall|i: int|
                    0 <= i < t.len() ==> q[i] == Ok::<(Seq<u8>, u16, u32), Seq<char>>(
                        ((#[trigger] v@[i]).0@, v@[i].1, v@[i].2),
                    ),
                Err(e) => exists|i: int| #[trigger] first_bad_nameserver(t, q, i, e),
            }
        }),
{
    let ghost t = texts@.map_values(|x: String| x@);
    let ghost q = parsed@.map_values(|a: Result<NameServerAddr, String>| ns_view(a));
    let mut out: Vec<NameServerAddr> = Vec::new();
    let mut i: usize = 0;
    while i < parsed.len()
        invariant
            t == texts@.map_values(|x: String| x@),
            q == parsed@.map_values(|a: Result<NameServerAddr, String>| ns_view(a)),
            parsed@.len() == texts@.len(),
            i <= parsed.len(),
            out@.len() == i,
            all_ns_parsed(q, i as int),
            forall|j: int|
                0 <= j < i ==> q[j] == Ok::<(Seq<u8>, u16, u32), Seq<char>>(
                    ((#[trigger] out@[j]).0@, out@[j].1, out@[j].2),
                ),
        decreases parsed.len() - i,
    {
        assert(q[i as int] == ns_view(parsed@[i as int]));
        match &parsed[i] {
            Ok(a) => {
                let mut ip: Vec<u8> = Vec::new();
                let mut k: usize = 0;
                while k < a.0.len()
                    invariant
                        k <= a.0.len(),
                        ip@ == a.0@.take(k as int),
                    decreases a.0.len() - k,
                {
                    ip.push(a.0[k]);
                    k += 1;
                    assert(ip@ =~= a.0@.take(k as int));
                }
                assert(a.0@.take(a.0.len() as int) =~= a.0@);
                out.push((ip, a.1, a.2));
            },
            Err(reason) => {
                let mut msg = String::from_str("invalid nameserver '");
                msg.append(texts[i].as_str());
                msg.append("': ");
                msg.append(reason.as_str());
                assert(t[i as int] == texts@[i as int]@);
                assert(msg@ =~= invalid_nameserver_message(t[i as int], reason@));
                let e = CatcherError::InvalidConfig(msg);
                assert(first_bad_nameserver(t, q, i as int, e));
                return Err(e);
            },
        }
        i += 1;
    }
    Ok(out)
}

/// Parses the configured name servers (`ip:port`, IPv6 in brackets), in
/// order; the first that is not a socket address fails them all with an
/// invalid-configuration error naming it and the parser's reason.
pub fn parse_nameservers(texts: &Vec<String>) -> (r: Result<Vec<NameServerAddr>, CatcherError>)
    ensures
        ({
            let t = texts@.map_values(|x: String| x@);
            let q = t.map_values(|x: Seq<char>| socket_addr_parse(x));
            match r {
                Ok(v) => all_ns_parsed(q, t.len() as int) && v@.len() == t.len() && forall|i: int|
                    0 <= i < t.len() ==> q[i] == Ok::<(Seq<u8>, u16, u32), Seq<char>>(
                        ((#[trigger] v@[i]).0@, v@[i].1, v@[i].2),
                    ),
                Err(e) => exists|i: int| #[trigger] first_bad_nameserver(t, q, i, e),
            }
        }),
{
    let ghost t = texts@.map_values(|x: String| x@);
    let ghost want = t.map_values(|x: Seq<char>| socket_addr_parse(x));
    let mut parsed: Vec<Result<NameServerAddr, String>> = Vec::new();
    let mut i: usize = 0;
    while i < texts.len()
        invariant
            t == texts@.map_values(|x: String| x@),
            want == t.map_values(|x: Seq<char>| socket_addr_parse(x)),
            i <= texts.len(),
            parsed@.map_values(|a: Result<NameServerAddr, String>| ns_view(a)) == want.take(i as int),
        decreases texts.len() - i,
    {
        let d = parse_socket_addr(texts[i].as_str());
        let ghost before = parsed@;
        parsed.push(d);
        proof {
            assert(parsed@.map_values(|a: Result<NameServerAddr, String>| ns_view(a))
                =~= before.map_values(|a: Result<NameServerAddr, String>| ns_view(a)).push(ns_view(d)));
            assert(want.take(i + 1) =~= want.take(i as int).push(want[i as int]));
            assert(want[i as int] == socket_addr_parse(texts@[i as int]@));
        }
        i += 1;
    }
    assert(want.take(texts.len() as int) =~= want);
    nameservers_from(texts, &parsed)
}

} // verus!
