//! Resolving a target address, as decisions on which name to look up next.

use crate::probe::{Error, IpAddress, ResolutionResult, SocketAddress, TargetAddress};
use vstd::prelude::*;
use vstd::string::*;

verus! {

/// A record of the answer to a DNS lookup.
#[derive(Debug)]
pub enum DnsRecord {
    /// An SRV record.
    Srv {
        /// The hostname that provides the service.
        target: String,
        /// The port that provides the service.
        port: u16,
    },
    /// A record of any other type.
    Other,
}

/// The hostname that is resolved to an IP address, along with the port that is used with it.
#[derive(Debug)]
pub struct Endpoint {
    /// The hostname to resolve.
    pub hostname: String,
    /// The port to use.
    pub port: u16,
    /// Whether the hostname and the port were taken from an SRV record.
    pub srv: bool,
}

/// How far a resolution has come.
#[derive(Debug)]
pub enum ResolutionProgress {
    /// No name has been looked up yet.
    Start,
    /// The SRV records were looked up, which gave these records or failed.
    SrvLookedUp(Option<Vec<DnsRecord>>),
    /// The IP addresses were looked up.
    IpLookedUp {
        /// The endpoint whose hostname was looked up.
        endpoint: Endpoint,
        /// The addresses in the order of the answer, or why there is no answer.
        addresses: Result<Vec<IpAddress>, String>,
    },
}

/// What is to be done next in a resolution.
#[derive(Debug)]
pub enum ResolutionStep {
    /// Look up the SRV records of this name.
    LookupSrv(String),
    /// Look up the IP addresses of the hostname of this endpoint.
    LookupIp(Endpoint),
    /// Nothing: this is the outcome.
    Done(Result<ResolutionResult, Error>),
}

/// The first SRV record of an answer.
pub open spec fn first_srv(records: Seq<DnsRecord>) -> Option<DnsRecord>
    decreases records.len(),
{
    if records.len() == 0 {
        None
    } else if records[0] is Srv {
        Some(records[0])
    } else {
        first_srv(records.drop_first())
    }
}

/// The first IPv4 address of an answer.
pub open spec fn first_ipv4(addresses: Seq<IpAddress>) -> Option<IpAddress>
    decreases addresses.len(),
{
    if addresses.len() == 0 {
        None
    } else if addresses[0] is V4 {
        Some(addresses[0])
    } else {
        first_ipv4(addresses.drop_first())
    }
}

impl TargetAddress {
    /// The name whose SRV records tell which server is responsible for this address.
    pub open spec fn srv_name(&self) -> Seq<char> {
        "_minecraft._tcp."@ + self.hostname@
    }

    /// The endpoint to use after the SRV records have been looked up: that of the first SRV record, or this address.
    pub open spec fn endpoint(&self, records: Option<Vec<DnsRecord>>) -> Endpoint {
        let record = match records {
            Some(records) => first_srv(records@),
            None => None,
        };
        match record {
            Some(DnsRecord::Srv { target, port }) => Endpoint { hostname: target, port, srv: true },
            _ => Endpoint { hostname: self.hostname, port: self.port, srv: false },
        }
    }

    /// Whether a step is the one that follows in resolving this address.
    pub open spec fn resolves(&self, progress: ResolutionProgress, step: ResolutionStep) -> bool {
        match progress {
            ResolutionProgress::Start => step is LookupSrv && step->LookupSrv_0@ == self.srv_name(),
            ResolutionProgress::SrvLookedUp(records) => step == ResolutionStep::LookupIp(self.endpoint(records)),
            ResolutionProgress::IpLookedUp { endpoint, addresses } => step == ResolutionStep::Done(
                resolution(endpoint, addresses),
            ),
        }
    }

    /// Decides what is to be done next to convert this hostname and port to the resolved socket address.
    ///
    /// The hostname of this address is resolved through DNS and is used as the IP address of the resulting socket
    /// address. To do this, we also check the SRV record for minecraft (`_minecraft._tcp`) and prefer to use this
    /// information.
    pub fn to_socket_addrs(&self, progress: ResolutionProgress) -> (step: ResolutionStep)
        ensures
            self.resolves(progress, step),
    {
        match progress {
            ResolutionProgress::Start => {
                // assemble the SRV record name
                let mut srv_name = "_minecraft._tcp.".to_owned();
                srv_name.append(self.hostname.as_str());
                ResolutionStep::LookupSrv(srv_name)
            },
            // check if any SRV record was present (use this data then)
            ResolutionProgress::SrvLookedUp(records) => {
                let record = match &records {
                    Some(records) => find_srv(records),
                    None => None,
                };
                ResolutionStep::LookupIp(match record {
                    Some((target, port)) => Endpoint { hostname: target, port, srv: true },
                    None => Endpoint { hostname: self.hostname.clone(), port: self.port, srv: false },
                })
            },
            // use the first IPv4 address of the hostname
            ResolutionProgress::IpLookedUp { endpoint, addresses: Ok(addresses) } => ResolutionStep::Done(
                match find_ipv4(&addresses) {
                    Some(ip) => {
                        let address = SocketAddress { ip, port: endpoint.port };
                        if endpoint.srv {
                            Ok(ResolutionResult::Srv(address))
                        } else {
                            Ok(ResolutionResult::Plain(address))
                        }
                    },
                    // no IPv4 could be found, return an error
                    None => Err(Error::CouldNotResolveIp(endpoint.hostname)),
                },
            ),
            ResolutionProgress::IpLookedUp { addresses: Err(cause), .. } => ResolutionStep::Done(
                Err(Error::ResolutionFail(cause)),
            ),
        }
    }
}

/// The outcome of a resolution after the IP addresses of the endpoint have been looked up.
pub open spec fn resolution(
    endpoint: Endpoint,
    addresses: Result<Vec<IpAddress>, String>,
) -> Result<ResolutionResult, Error> {
    match addresses {
        Err(cause) => Err(Error::ResolutionFail(cause)),
        Ok(addresses) => match first_ipv4(addresses@) {
            None => Err(Error::CouldNotResolveIp(endpoint.hostname)),
            Some(ip) if endpoint.srv => Ok(ResolutionResult::Srv(SocketAddress { ip, port: endpoint.port })),
            Some(ip) => Ok(ResolutionResult::Plain(SocketAddress { ip, port: endpoint.port })),
        },
    }
}

/// Returns the hostname and the port of the first SRV record.
fn find_srv(records: &Vec<DnsRecord>) -> (record: Option<(String, u16)>)
    ensures
        match record {
            Some((target, port)) => first_srv(records@) == Some(DnsRecord::Srv { target, port }),
            None => first_srv(records@) is None,
        },
{
    let mut i: usize = 0;
    proof {
        assert(records@.skip(0) == records@);
    }
    while i < records.len()
        invariant
            i <= records.len(),
            first_srv(records@.skip(i as int)) == first_srv(records@),
        decreases records.len() - i,
    {
        proof {
            assert(records@.skip(i as int).drop_first() == records@.skip(i + 1));
        }
        match &records[i] {
            DnsRecord::Srv { target, port } => return Some((target.clone(), *port)),
            DnsRecord::Other => {},
        }
        i = i + 1;
    }
    None
}

/// Returns the first IPv4 address.
fn find_ipv4(addresses: &Vec<IpAddress>) -> (address: Option<IpAddress>)
    ensures
        address == first_ipv4(addresses@),
{
    let mut i: usize = 0;
    proof {
        assert(addresses@.skip(0) == addresses@);
    }
    while i < addresses.len()
        invariant
            i <= addresses.len(),
            first_ipv4(addresses@.skip(i as int)) == first_ipv4(addresses@),
        decreases addresses.len() - i,
    {
        proof {
            assert(addresses@.skip(i as int).drop_first() == addresses@.skip(i + 1));
        }
        match addresses[i] {
            IpAddress::V4(_) => return Some(addresses[i]),
            IpAddress::V6(_) => {},
        }
        i = i + 1;
    }
    None
}

/// The first SRV record of an answer is used, whatever other records surround it, and the port of the address is then
/// ignored.
pub proof fn law_srv_record_is_preferred(address: TargetAddress, records: Vec<DnsRecord>, k: int)
    requires
        0 <= k < records@.len(),
        records@[k] is Srv,
        forall|i: int| 0 <= i < k ==> records@[i] is Other,
    ensures
        address.endpoint(Some(records)) == (Endpoint {
            hostname: records@[k]->target,
            port: records@[k]->port,
            srv: true,
        }),
{
    lemma_first_srv(records@, k);
}

/// The first SRV record is the one that no other SRV record comes before.
proof fn lemma_first_srv(records: Seq<DnsRecord>, k: int)
    requires
        0 <= k < records.len(),
        records[k] is Srv,
        forall|i: int| 0 <= i < k ==> records[i] is Other,
    ensures
        first_srv(records) == Some(records[k]),
    decreases records.len(),
{
    if k > 0 {
        assert(records[0] is Other);
        lemma_first_srv(records.drop_first(), k - 1);
    }
}

/// Without any SRV record the address is used as it is.
pub proof fn law_address_is_used_without_srv(address: TargetAddress, records: Option<Vec<DnsRecord>>)
    requires
        records matches Some(records) ==> forall|i: int| 0 <= i < records@.len() ==> records@[i] is Other,
    ensures
        address.endpoint(records) == (Endpoint { hostname: address.hostname, port: address.port, srv: false }),
{
    if let Some(records) = records {
        lemma_no_srv(records@);
    }
}

/// Without any SRV record there is no first one.
proof fn lemma_no_srv(records: Seq<DnsRecord>)
    requires
        forall|i: int| 0 <= i < records.len() ==> records[i] is Other,
    ensures
        first_srv(records) is None,
    decreases records.len(),
{
    if records.len() > 0 {
        assert(records[0] is Other);
        lemma_no_srv(records.drop_first());
    }
}

/// A resolved address is an IPv4 address out of the answer together with the port of the endpoint, marked by whether
/// the endpoint came from an SRV record.
pub proof fn law_resolved_address_is_ipv4(endpoint: Endpoint, addresses: Vec<IpAddress>)
    ensures
        resolution(endpoint, Ok(addresses)) matches Ok(result) ==> {
            let address = match result {
                ResolutionResult::Srv(address) => address,
                ResolutionResult::Plain(address) => address,
            };
            &&& address.ip is V4
            &&& addresses@.contains(address.ip)
            &&& address.port == endpoint.port
            &&& (result is Srv <==> endpoint.srv)
        },
{
    lemma_first_ipv4(addresses@);
}

/// An answered resolution fails exactly if the answer has no IPv4 address.
pub proof fn law_resolution_fails_without_ipv4(endpoint: Endpoint, addresses: Vec<IpAddress>)
    ensures
        resolution(endpoint, Ok(addresses)) is Err <==> forall|i: int|
            0 <= i < addresses@.len() ==> addresses@[i] is V6,
{
    lemma_first_ipv4(addresses@);
}

/// The first IPv4 address is an element of the answer, and there is none if and only if all addresses are others.
proof fn lemma_first_ipv4(addresses: Seq<IpAddress>)
    ensures
        match first_ipv4(addresses) {
            Some(address) => address is V4 && addresses.contains(address),
            None => forall|i: int| 0 <= i < addresses.len() ==> addresses[i] is V6,
        },
    decreases addresses.len(),
{
    if addresses.len() > 0 {
        let tail = addresses.drop_first();
        lemma_first_ipv4(tail);
        if addresses[0] is V4 {
            assert(addresses.contains(addresses[0]));
        } else if let Some(address) = first_ipv4(tail) {
            let i = choose|i: int| 0 <= i < tail.len() && tail[i] == address;
            assert(addresses[i + 1] == address);
        } else {
            assert forall|i: int| 0 <= i < addresses.len() implies addresses[i] is V6 by {
                if i > 0 {
                    assert(addresses[i] == tail[i - 1]);
                }
            }
        }
    }
}

/// The SRV records of a target are those of its hostname: the name that is looked up is the hostname behind the service
/// and the transport, so that different hostnames have different names.
pub proof fn law_srv_name_belongs_to_hostname(address: TargetAddress)
    ensures
        address.srv_name().len() == 16 + address.hostname@.len(),
        address.srv_name().take(16) == "_minecraft._tcp."@,
        address.srv_name().skip(16) == address.hostname@,
{
    reveal_strlit("_minecraft._tcp.");
    assert(address.srv_name().take(16) == "_minecraft._tcp."@);
    assert(address.srv_name().skip(16) == address.hostname@);
}

/// Of several IPv4 addresses in an answer the first one is used, whatever other addresses surround it.
pub proof fn law_first_ipv4_address_is_used(endpoint: Endpoint, addresses: Vec<IpAddress>, k: int)
    requires
        0 <= k < addresses@.len(),
        addresses@[k] is V4,
        forall|i: int| 0 <= i < k ==> addresses@[i] is V6,
    ensures
        match resolution(endpoint, Ok(addresses)) {
            Ok(ResolutionResult::Srv(address)) => {
                &&& endpoint.srv
                &&& address.ip == addresses@[k]
                &&& address.port == endpoint.port
            },
            Ok(ResolutionResult::Plain(address)) => {
                &&& !endpoint.srv
                &&& address.ip == addresses@[k]
                &&& address.port == endpoint.port
            },
            Err(_) => false,
        },
{
    lemma_first_ipv4_index(addresses@, k);
}

/// The first IPv4 address is the one that only other addresses come before.
proof fn lemma_first_ipv4_index(addresses: Seq<IpAddress>, k: int)
    requires
        0 <= k < addresses.len(),
        addresses[k] is V4,
        forall|i: int| 0 <= i < k ==> addresses[i] is V6,
    ensures
        first_ipv4(addresses) == Some(addresses[k]),
    decreases addresses.len(),
{
    if k > 0 {
        assert(addresses[0] is V6);
        lemma_first_ipv4_index(addresses.drop_first(), k - 1);
    }
}

/// A resolution that fails tells why: the lookup failed for the reason that is given, or the hostname that was looked up
/// has no IPv4 address.
pub proof fn law_failed_resolution_holds_its_cause(endpoint: Endpoint, addresses: Result<Vec<IpAddress>, String>)
    ensures
        match resolution(endpoint, addresses) {
            Err(Error::ResolutionFail(cause)) => addresses == Err::<Vec<IpAddress>, String>(cause),
            Err(Error::CouldNotResolveIp(hostname)) => {
                &&& hostname == endpoint.hostname
                &&& addresses is Ok
                &&& forall|i: int| 0 <= i < addresses->Ok_0@.len() ==> addresses->Ok_0@[i] is V6
            },
            Ok(_) => addresses is Ok,
        },
{
    if let Ok(addresses) = addresses {
        lemma_first_ipv4(addresses@);
    }
}

/// The resolved address has the port of the target if there is no SRV record, and then it is no resolution through one.
/// Otherwise it has the port of the first SRV record, and it is one.
pub proof fn law_resolution_uses_port_of_target_or_record(
    address: TargetAddress,
    records: Vec<DnsRecord>,
    addresses: Vec<IpAddress>,
    k: int,
)
    requires
        0 <= k <= records@.len(),
        forall|i: int| 0 <= i < k ==> records@[i] is Other,
        k < records@.len() ==> records@[k] is Srv,
    ensures
        match resolution(address.endpoint(Some(records)), Ok(addresses)) {
            Ok(ResolutionResult::Srv(resolved)) => k < records@.len() && resolved.port == records@[k]->port,
            Ok(ResolutionResult::Plain(resolved)) => k == records@.len() && resolved.port == address.port,
            Err(Error::CouldNotResolveIp(hostname)) => {
                &&& k < records@.len() ==> hostname == records@[k]->target
                &&& k == records@.len() ==> hostname == address.hostname
            },
            Err(_) => false,
        },
{
    if k < records@.len() {
        law_srv_record_is_preferred(address, records, k);
    } else {
        law_address_is_used_without_srv(address, Some(records));
    }
}

/// Whether the record at an index is the first SRV record of an answer.
pub open spec fn is_first_srv(records: Seq<DnsRecord>, k: int) -> bool {
    &&& 0 <= k < records.len()
    &&& records[k] is Srv
    &&& forall|i: int| 0 <= i < k ==> records[i] is Other
}

/// First the SRV records of the hostname behind the service are looked up. Then the IP addresses are looked up: those of
/// the first SRV record if there is one, with its port, or else those of the hostname itself, with the port of the
/// target. The outcome is an IPv4 address out of the answer with that port, marked by where it came from.
pub proof fn law_resolution_goes_through_srv_to_ip(
    address: TargetAddress,
    progress: ResolutionProgress,
    step: ResolutionStep,
)
    requires
        address.resolves(progress, step),
    ensures
        match step {
            ResolutionStep::LookupSrv(name) => {
                &&& progress is Start
                &&& name@.take(16) == "_minecraft._tcp."@
                &&& name@.skip(16) == address.hostname@
            },
            ResolutionStep::LookupIp(endpoint) => {
                &&& progress is SrvLookedUp
                &&& endpoint.srv ==> progress->SrvLookedUp_0 is Some && exists|k: int|
                    {
                        &&& #[trigger] is_first_srv(progress->SrvLookedUp_0->0@, k)
                        &&& endpoint.hostname == progress->SrvLookedUp_0->0@[k]->target
                        &&& endpoint.port == progress->SrvLookedUp_0->0@[k]->port
                    }
                &&& !endpoint.srv ==> {
                    &&& endpoint.hostname == address.hostname
                    &&& endpoint.port == address.port
                    &&& progress->SrvLookedUp_0 matches Some(records) ==> forall|i: int|
                        0 <= i < records@.len() ==> records@[i] is Other
                }
            },
            ResolutionStep::Done(Ok(ResolutionResult::Srv(resolved))) => {
                &&& progress is IpLookedUp
                &&& progress->endpoint.srv
                &&& resolved.ip is V4
                &&& resolved.port == progress->endpoint.port
                &&& progress->addresses is Ok
                &&& progress->addresses->Ok_0@.contains(resolved.ip)
            },
            ResolutionStep::Done(Ok(ResolutionResult::Plain(resolved))) => {
                &&& progress is IpLookedUp
                &&& !progress->endpoint.srv
                &&& resolved.ip is V4
                &&& resolved.port == progress->endpoint.port
                &&& progress->addresses is Ok
                &&& progress->addresses->Ok_0@.contains(resolved.ip)
            },
            ResolutionStep::Done(Err(Error::ResolutionFail(cause))) => {
                &&& progress is IpLookedUp
                &&& progress->addresses == Err::<Vec<IpAddress>, String>(cause)
            },
            ResolutionStep::Done(Err(Error::CouldNotResolveIp(hostname))) => {
                &&& progress is IpLookedUp
                &&& hostname == progress->endpoint.hostname
                &&& progress->addresses is Ok
                &&& forall|i: int|
                    0 <= i < progress->addresses->Ok_0@.len() ==> progress->addresses->Ok_0@[i] is V6
            },
        },
{
    match progress {
        ResolutionProgress::Start => {
            law_srv_name_belongs_to_hostname(address);
        },
        ResolutionProgress::SrvLookedUp(records) => {
            if let Some(records) = records {
                lemma_srv_found(records@);
            }
        },
        ResolutionProgress::IpLookedUp { endpoint, addresses } => {
            if let Ok(addresses) = addresses {
                lemma_first_ipv4(addresses@);
            }
        },
    }
}

/// There is a first SRV record unless all records are others.
proof fn lemma_srv_found(records: Seq<DnsRecord>)
    ensures
        match first_srv(records) {
            Some(record) => exists|k: int| #[trigger] is_first_srv(records, k) && records[k] == record,
            None => forall|i: int| 0 <= i < records.len() ==> records[i] is Other,
        },
    decreases records.len(),
{
    if records.len() > 0 {
        let tail = records.drop_first();
        lemma_srv_found(tail);
        if records[0] is Srv {
            assert(is_first_srv(records, 0));
        } else if let Some(record) = first_srv(tail) {
            let k = choose|k: int| #[trigger] is_first_srv(tail, k) && tail[k] == record;
            assert forall|i: int| 0 <= i < k + 1 implies records[i] is Other by {
                if i > 0 {
                    assert(records[i] == tail[i - 1]);
                }
            }
            assert(is_first_srv(records, k + 1));
        } else {
            assert forall|i: int| 0 <= i < records.len() implies records[i] is Other by {
                if i > 0 {
                    assert(records[i] == tail[i - 1]);
                }
            }
        }
    }
}

} // verus!
