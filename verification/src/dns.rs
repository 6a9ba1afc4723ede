//! The resolver's memory and the choice of its transport.
//!
//! Addresses that a live query brought are kept for good: nothing is ever
//! dropped or refreshed. The queries themselves are made by the driver; what
//! is decided here is whether one is needed and what becomes of its answers.

use vstd::prelude::*;
use vstd::string::StringExecFns;

verus! {

/// The port of DNS over TLS.
pub const DOT_PORT: u16 = 853;

/// The port of plain DNS.
pub const DNS_PORT: u16 = 53;

/// How the DNS server is spoken to.
#[derive(Clone, Copy, Debug, PartialEq, Eq, Structural)]
pub enum DNSServerKind {
    /// Plain DNS over TCP.
    TCP,
    /// DNS over TLS.
    TLS,
}

/// An IP address as plain numbers: the four octets of an IPv4 address or
/// the eight segments of an IPv6 address.
#[derive(Clone, Copy, Debug, PartialEq, Eq)]
pub enum IpAddress {
    V4([u8; 4]),
    V6([u16; 8]),
}

/// Why a host name has no address.
#[derive(Clone, Copy, Debug, PartialEq, Eq, Structural)]
pub enum LookupError {
    /// The query was answered with no address.
    NotFound,
    /// The query itself failed.
    Transport,
}

/// What a lookup needs next.
#[derive(Clone, Copy, Debug, PartialEq, Eq)]
pub enum Lookup {
    /// The host is an IP literal: this is its address.
    Literal(IpAddress),
    /// The host was resolved before: this is the address found then.
    Cached(IpAddress),
    /// The host is unknown: a live query is needed.
    Query,
}

/// Where the addresses of the DNS server come from.
#[derive(Debug)]
pub enum ServerAddresses {
    /// The server was given as an IP literal.
    Known(Vec<IpAddress>),
    /// The server was given by name: the system resolves this `host:port`.
    SystemLookup(String),
}

/// The name servers that the resolver is to be set up with.
#[derive(Debug)]
pub struct ResolverPlan {
    /// The transport.
    pub kind: DNSServerKind,
    /// The addresses of the name servers.
    pub servers: Vec<IpAddress>,
    /// The port of every name server.
    pub port: u16,
    /// The name that the servers' certificates must carry, for TLS.
    pub tls_name: Option<String>,
    /// Whether a negative answer of these servers is final.
    pub trust_negative_responses: bool,
}

/// One remembered resolution.
#[derive(Debug)]
pub struct CacheEntry {
    host: String,
    address: IpAddress,
}

/// The resolver's plan and its memory of earlier resolutions.
#[derive(Debug)]
pub struct CachedResolver {
    plan: ResolverPlan,
    cache: Vec<CacheEntry>,
}

/// The port that a transport uses.
pub open spec fn port_of(kind: DNSServerKind) -> u16 {
    match kind {
        DNSServerKind::TCP => DNS_PORT,
        DNSServerKind::TLS => DOT_PORT,
    }
}

/// The text `host:port` under which the system looks a DNS server up.
pub open spec fn lookup_target(dns_server: Seq<char>, kind: DNSServerKind) -> Seq<char> {
    match kind {
        DNSServerKind::TCP => dns_server + ":53"@,
        DNSServerKind::TLS => dns_server + ":853"@,
    }
}

/// What a lookup of `host` needs, given the memory `cache` and the address
/// that `host` denotes if it is an IP literal.
pub open spec fn lookup_of(
    cache: Map<Seq<char>, IpAddress>,
    host: Seq<char>,
    literal: Option<IpAddress>,
) -> Lookup {
    match literal {
        Some(address) => Lookup::Literal(address),
        None => if cache.contains_key(host) {
            Lookup::Cached(cache[host])
        } else {
            Lookup::Query
        },
    }
}

/// What the answers of a live query come to: nothing where the query
/// failed, the last of the addresses where it brought any.
pub open spec fn answer_of(answers: Option<Seq<IpAddress>>) -> Result<IpAddress, LookupError> {
    match answers {
        None => Err(LookupError::Transport),
        Some(ips) => if ips.len() == 0 {
            Err(LookupError::NotFound)
        } else {
            Ok(ips.last())
        },
    }
}

/// The memory after the answers of a live query for `host` came in.
pub open spec fn remember(
    cache: Map<Seq<char>, IpAddress>,
    host: Seq<char>,
    answers: Option<Seq<IpAddress>>,
) -> Map<Seq<char>, IpAddress> {
    match answer_of(answers) {
        Ok(address) => cache.insert(host, address),
        Err(_) => cache,
    }
}

/// One whole resolution of `host`: its result and the memory it leaves.
/// `answers` is what a live query for `host` brings at that moment; it is
/// looked at only where the lookup asks for a query.
pub open spec fn resolve(
    cache: Map<Seq<char>, IpAddress>,
    host: Seq<char>,
    literal: Option<IpAddress>,
    answers: Option<Seq<IpAddress>>,
) -> (Map<Seq<char>, IpAddress>, Result<IpAddress, LookupError>) {
    match lookup_of(cache, host, literal) {
        Lookup::Literal(address) => (cache, Ok(address)),
        Lookup::Cached(address) => (cache, Ok(address)),
        Lookup::Query => (remember(cache, host, answers), answer_of(answers)),
    }
}

/// One resolution in a run of them.
pub struct Resolution {
    pub host: Seq<char>,
    pub literal: Option<IpAddress>,
    pub answers: Option<Seq<IpAddress>>,
}

/// The memory after a run of resolutions, one after the other.
pub open spec fn resolve_all(cache: Map<Seq<char>, IpAddress>, run: Seq<Resolution>) -> Map<
    Seq<char>,
    IpAddress,
>
    decreases run.len(),
{
    if run.len() == 0 {
        cache
    } else {
        resolve_all(
            resolve(cache, run.first().host, run.first().literal, run.first().answers).0,
            run.drop_first(),
        )
    }
}

/// A host that is an IP literal resolves to that literal: no query is asked
/// for and the memory stays as it was, whatever it holds and whatever a
/// query would bring.
pub proof fn literals_resolve_to_themselves(
    cache: Map<Seq<char>, IpAddress>,
    host: Seq<char>,
    address: IpAddress,
    answers: Option<Seq<IpAddress>>,
)
    ensures
        lookup_of(cache, host, Some(address)) == Lookup::Literal(address),
        resolve(cache, host, Some(address), answers) == (cache, Ok::<IpAddress, LookupError>(address)),
{
}

/// A host name that was resolved once keeps its address: after any run of
/// further resolutions, of this host or of others, a lookup of the host
/// asks for no query and finds the address of the first resolution, whatever
/// a query would bring by then.
pub proof fn resolved_hosts_stay_resolved(
    cache: Map<Seq<char>, IpAddress>,
    host: Seq<char>,
    address: IpAddress,
    run: Seq<Resolution>,
    answers: Option<Seq<IpAddress>>,
)
    requires
        cache.contains_key(host),
        cache[host] == address,
    ensures
        lookup_of(resolve_all(cache, run), host, None) == Lookup::Cached(address),
        resolve(resolve_all(cache, run), host, None, answers).1 == Ok::<IpAddress, LookupError>(
            address,
        ),
    decreases run.len(),
{
    if run.len() > 0 {
        let first = run.first();
        let next = resolve(cache, first.host, first.literal, first.answers).0;
        assert(next.contains_key(host) && next[host] == address);
        resolved_hosts_stay_resolved(next, host, address, run.drop_first(), answers);
    }
}

/// The first successful resolution of an unknown host name puts the last
/// address of the query's answers into the memory, where later lookups find
/// it.
pub proof fn first_resolution_is_remembered(
    cache: Map<Seq<char>, IpAddress>,
    host: Seq<char>,
    ips: Seq<IpAddress>,
)
    requires
        !cache.contains_key(host),
        ips.len() > 0,
    ensures
        resolve(cache, host, None, Some(ips)).1 == Ok::<IpAddress, LookupError>(ips.last()),
        lookup_of(resolve(cache, host, None, Some(ips)).0, host, None) == Lookup::Cached(
            ips.last(),
        ),
{
}

/// Decides where the addresses of the DNS server come from: from the server
/// itself where it is an IP literal, else from a lookup by the system.
pub fn server_addresses(dns_server: &str, literal: Option<IpAddress>, kind: DNSServerKind) -> (r:
    ServerAddresses)
    ensures
        match r {
            ServerAddresses::Known(ips) => literal is Some && ips@ == seq![literal->0],
            ServerAddresses::SystemLookup(target) => literal is None && target@ == lookup_target(
                dns_server@,
                kind,
            ),
        },
{
    match literal {
        Some(ip) => {
            let mut ips: Vec<IpAddress> = Vec::new();
            ips.push(ip);
            ServerAddresses::Known(ips)
        },
        None => {
            let suffix = match kind {
                DNSServerKind::TCP => ":53",
                DNSServerKind::TLS => ":853",
            };
            ServerAddresses::SystemLookup(String::from_str(dns_server).concat(suffix))
        },
    }
}

/// Plans a resolver that speaks DNS over TLS to every one of the given
/// addresses and checks the certificate against the server's name.
pub fn create_dot_resolver(dns_server: &str, resolver_ips: Vec<IpAddress>) -> (plan: ResolverPlan)
    ensures
        plan.kind == DNSServerKind::TLS,
        plan.servers@ == resolver_ips@,
        plan.port == DOT_PORT,
        plan.tls_name matches Some(name) && name@ == dns_server@,
        plan.trust_negative_responses,
{
    ResolverPlan {
        kind: DNSServerKind::TLS,
        servers: resolver_ips,
        port: DOT_PORT,
        tls_name: Some(String::from_str(dns_server)),
        trust_negative_responses: true,
    }
}

/// Plans a resolver that speaks plain DNS over TCP to the first of the given
/// addresses.
pub fn create_tcp_resolver(dns_server: &str, resolver_ips: Vec<IpAddress>) -> (plan: ResolverPlan)
    requires
        resolver_ips.len() > 0,
    ensures
        plan.kind == DNSServerKind::TCP,
        plan.servers@ == seq![resolver_ips@[0]],
        plan.port == DNS_PORT,
        plan.tls_name is None,
        plan.trust_negative_responses,
{
    let mut servers: Vec<IpAddress> = Vec::new();
    servers.push(resolver_ips[0]);
    ResolverPlan {
        kind: DNSServerKind::TCP,
        servers,
        port: DNS_PORT,
        tls_name: None,
        trust_negative_responses: true,
    }
}

spec fn holds(entries: Seq<CacheEntry>, host: Seq<char>, i: int) -> bool {
    0 <= i < entries.len() && entries[i].host@ == host
}

spec fn known(entries: Seq<CacheEntry>, host: Seq<char>) -> bool {
    exists|i: int| holds(entries, host, i)
}

spec fn position(entries: Seq<CacheEntry>, host: Seq<char>) -> int {
    choose|i: int| holds(entries, host, i)
}

spec fn distinct(entries: Seq<CacheEntry>) -> bool {
    forall|i: int, j: int|
        0 <= i < j < entries.len() ==> (#[trigger] entries[i]).host@ != (#[trigger] entries[j]).host@
}

spec fn map_of(entries: Seq<CacheEntry>) -> Map<Seq<char>, IpAddress> {
    Map::new(
        |host: Seq<char>| known(entries, host),
        |host: Seq<char>| entries[position(entries, host)].address,
    )
}

proof fn lemma_entry_is_mapped(entries: Seq<CacheEntry>, i: int)
    requires
        distinct(entries),
        0 <= i < entries.len(),
    ensures
        map_of(entries).contains_key(entries[i].host@),
        map_of(entries)[entries[i].host@] == entries[i].address,
{
    let host = entries[i].host@;
    assert(holds(entries, host, i));
    let p = position(entries, host);
    assert(holds(entries, host, p));
    assert(p == i);
}

proof fn lemma_put(before: Seq<CacheEntry>, after: Seq<CacheEntry>, at: int)
    requires
        distinct(before),
        0 <= at < after.len(),
        at < before.len() ==> after == before.update(at, after[at]) && before[at].host@
            == after[at].host@,
        at >= before.len() ==> after == before.push(after[at]) && !known(before, after[at].host@),
    ensures
        distinct(after),
        map_of(after) == map_of(before).insert(after[at].host@, after[at].address),
{
    let key = after[at].host@;
    assert forall|h: Seq<char>, j: int| j != at implies holds(after, h, j) == holds(
        before,
        h,
        j,
    ) by {}
    assert forall|i: int, j: int| 0 <= i < j < after.len() implies (#[trigger] after[i]).host@
        != (#[trigger] after[j]).host@ by {
        if at >= before.len() {
            if j == at {
                assert(holds(before, after[i].host@, i));
            }
        } else {
            assert(after[i].host@ == before[i].host@);
            assert(after[j].host@ == before[j].host@);
        }
    }
    assert(holds(after, key, at));
    lemma_entry_is_mapped(after, at);
    assert forall|h: Seq<char>| h != key implies known(after, h) == known(before, h) by {
        if known(after, h) {
            let j = choose|j: int| holds(after, h, j);
            assert(holds(before, h, j));
        }
        if known(before, h) {
            let j = choose|j: int| holds(before, h, j);
            assert(holds(after, h, j));
        }
    }
    assert forall|h: Seq<char>| h != key && known(after, h) implies map_of(after)[h] == map_of(
        before,
    )[h] by {
        let p = position(after, h);
        assert(holds(after, h, p));
        assert(holds(before, h, p));
        lemma_entry_is_mapped(after, p);
        lemma_entry_is_mapped(before, p);
    }
    assert(map_of(after) =~= map_of(before).insert(key, after[at].address));
}

impl CachedResolver {
    /// The invariant of the memory: no host name is kept twice. Every
    /// resolver that this module hands out meets it.
    pub closed spec fn wf(&self) -> bool {
        distinct(self.cache@)
    }

    /// The resolver's memory: the address kept for each host name that a
    /// live query has resolved.
    pub closed spec fn view(&self) -> Map<Seq<char>, IpAddress> {
        map_of(self.cache@)
    }

    /// The plan that the resolver was made with.
    pub closed spec fn spec_plan(&self) -> ResolverPlan {
        self.plan
    }

    /// A resolver for the given server and transport, with an empty memory.
    /// `resolver_ips` are the addresses of the server.
    pub fn new(dns_server: &str, kind: DNSServerKind, resolver_ips: Vec<IpAddress>) -> (r: Self)
        requires
            kind is TCP ==> resolver_ips.len() > 0,
        ensures
            r.wf(),
            r@ == Map::<Seq<char>, IpAddress>::empty(),
            r.spec_plan().kind == kind,
            r.spec_plan().port == port_of(kind),
            r.spec_plan().trust_negative_responses,
            kind is TLS ==> r.spec_plan().servers@ == resolver_ips@ && (
            r.spec_plan().tls_name matches Some(name) && name@ == dns_server@),
            kind is TCP ==> r.spec_plan().servers@ == seq![resolver_ips@[0]]
                && r.spec_plan().tls_name is None,
    {
        let plan = match kind {
            DNSServerKind::TLS => create_dot_resolver(dns_server, resolver_ips),
            DNSServerKind::TCP => create_tcp_resolver(dns_server, resolver_ips),
        };
        let r = CachedResolver { plan, cache: Vec::new() };
        assert(r@ =~= Map::<Seq<char>, IpAddress>::empty());
        r
    }

    /// The plan that the resolver was made with.
    pub fn plan(&self) -> (p: &ResolverPlan)
        ensures
            *p == self.spec_plan(),
    {
        &self.plan
    }

    fn find(&self, host: &String) -> (r: Option<usize>)
        ensures
            match r {
                Some(i) => holds(self.cache@, host@, i as int),
                None => !known(self.cache@, host@),
            },
    {
        let mut i: usize = 0;
        while i < self.cache.len()
            invariant
                i <= self.cache@.len(),
                forall|j: int| 0 <= j < i ==> !holds(self.cache@, host@, j),
            decreases self.cache@.len() - i,
        {
            if self.cache[i].host == *host {
                return Some(i);
            }
            i = i + 1;
        }
        None
    }

    /// Begins the lookup of `host`. `literal` is the address that `host`
    /// denotes where it is itself an IP literal. A literal is its own
    /// answer; a host resolved before has the address found then; any
    /// other host needs a live query. The memory is not touched.
    pub fn lookup_ip(&self, host: String, literal: Option<IpAddress>) -> (r: Lookup)
        requires
            self.wf(),
        ensures
            r == lookup_of(self@, host@, literal),
    {
        match literal {
            Some(address) => Lookup::Literal(address),
            None => match self.find(&host) {
                Some(i) => {
                    proof {
                        lemma_entry_is_mapped(self.cache@, i as int);
                    }
                    Lookup::Cached(self.cache[i].address)
                },
                None => Lookup::Query,
            },
        }
    }

    /// Ends the lookup of `host` with what the live query brought: the
    /// addresses in the order in which they came, or nothing where the query
    /// failed. A failed query and one without addresses fail the lookup and
    /// leave the memory as it was; otherwise the last address is the host's
    /// address from now on.
    pub fn cache_answers(&mut self, host: String, answers: Option<&Vec<IpAddress>>) -> (r: Result<
        IpAddress,
        LookupError,
    >)
        requires
            old(self).wf(),
        ensures
            final(self).wf(),
            final(self).spec_plan() == old(self).spec_plan(),
            r == answer_of(
                match answers {
                    Some(ips) => Some(ips@),
                    None => None,
                },
            ),
            final(self)@ == remember(
                old(self)@,
                host@,
                match answers {
                    Some(ips) => Some(ips@),
                    None => None,
                },
            ),
    {
        let answers = match answers {
            None => {
                return Err(LookupError::Transport);
            },
            Some(ips) => ips,
        };
        if answers.len() == 0 {
            return Err(LookupError::NotFound);
        }
        let address = answers[answers.len() - 1];
        let ghost before = self.cache@;
        match self.find(&host) {
            Some(i) => {
                self.cache[i] = CacheEntry { host, address };
                proof {
                    lemma_put(before, self.cache@, i as int);
                }
            },
            None => {
                self.cache.push(CacheEntry { host, address });
                proof {
                    lemma_put(before, self.cache@, before.len() as int);
                }
            },
        }
        Ok(address)
    }
}

} // verus!
