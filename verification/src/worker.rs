//! The worker data model: identities, reachability descriptors and worker
//! records.

use vstd::prelude::*;
use crate::store::StoreKey;

verus! {

/// Opaque identity of a worker owner or reporter, as authenticated and
/// handed in by the host.
pub type Account = u64;

/// Identifier of a worker, unique within the scope of one owning account.
pub type WorkerId = u64;

/// A block height supplied by the host.
pub type BlockNumber = u64;

/// A reachability domain name, as raw bytes.
pub type Domain = Vec<u8>;

/// Lifecycle status of a worker, set by the registry; independent of the
/// observed status values handled by the aggregator.
#[derive(Clone, Copy, PartialEq, Eq, Structural, Debug)]
pub enum WorkerStatusType {
    Active,
    Busy,
    Inactive,
}

/// An IP reachability descriptor.
#[derive(Clone, Copy, PartialEq, Eq, Structural, Debug)]
pub struct Ip {
    pub ipv4: Option<u8>,
    pub ipv6: Option<u8>,
    pub port: u32,
}

/// A worker's reachability descriptor: an IP descriptor, a domain, or both.
#[derive(PartialEq, Eq, Debug)]
pub struct WorkerAPI {
    pub ip: Option<Ip>,
    pub domain: Option<Domain>,
}

/// Mathematical value of a [`WorkerAPI`].
#[verifier::ext_equal]
pub ghost struct ApiView {
    pub ip: Option<Ip>,
    pub domain: Option<Seq<u8>>,
}

impl View for WorkerAPI {
    type V = ApiView;

    open spec fn view(&self) -> ApiView {
        ApiView {
            ip: self.ip,
            domain: match self.domain {
                Some(d) => Some(d@),
                None => None,
            },
        }
    }
}

/// Whether a reachability descriptor carries at least one non-empty
/// reachability field: an IP descriptor naming an address, or a non-empty
/// domain.
pub open spec fn api_valid(a: ApiView) -> bool {
    ||| (a.ip matches Some(ip) && (ip.ipv4 is Some || ip.ipv6 is Some))
    ||| (a.domain matches Some(d) && d.len() > 0)
}

/// Global primary key of a worker: the owning account and the worker's
/// per-account identifier.
#[derive(Clone, Copy, PartialEq, Eq, Structural, Debug)]
pub struct WorkerKey {
    pub owner: Account,
    pub id: WorkerId,
}

impl StoreKey for WorkerKey {
    fn key_eq(&self, other: &WorkerKey) -> (r: bool)
        ensures
            r == (*self == *other),
    {
        self.owner == other.owner && self.id == other.id
    }
}

/// A registered worker record.
#[derive(PartialEq, Eq, Debug)]
pub struct Worker {
    pub id: WorkerId,
    pub owner: Account,
    pub start_block: BlockNumber,
    pub status: WorkerStatusType,
    pub status_last_updated: BlockNumber,
    pub api: WorkerAPI,
}

/// Mathematical value of a [`Worker`].
#[verifier::ext_equal]
pub ghost struct WorkerView {
    pub id: WorkerId,
    pub owner: Account,
    pub start_block: BlockNumber,
    pub status: WorkerStatusType,
    pub status_last_updated: BlockNumber,
    pub api: ApiView,
}

impl View for Worker {
    type V = WorkerView;

    open spec fn view(&self) -> WorkerView {
        WorkerView {
            id: self.id,
            owner: self.owner,
            start_block: self.start_block,
            status: self.status,
            status_last_updated: self.status_last_updated,
            api: self.api@,
        }
    }
}

/// Byte-wise equality of two byte vectors.
pub fn bytes_eq(a: &Vec<u8>, b: &Vec<u8>) -> (r: bool)
    ensures
        r == (a@ == b@),
{
    if a.len() != b.len() {
        return false;
    }
    let mut i: usize = 0;
    while i < a.len()
        invariant
            i <= a@.len(),
            a@.len() == b@.len(),
            forall|j: int| 0 <= j < i ==> a@[j] == b@[j],
        decreases a@.len() - i,
    {
        if a[i] != b[i] {
            return false;
        }
        i = i + 1;
    }
    proof {
        assert(a@ =~= b@);
    }
    true
}

/// Equality of two reachability descriptors, decided against their
/// mathematical values.
pub fn api_eq(a: &WorkerAPI, b: &WorkerAPI) -> (r: bool)
    ensures
        r == (a@ == b@),
{
    let ip_eq = match (a.ip, b.ip) {
        (Some(x), Some(y)) => x == y,
        (None, None) => true,
        _ => false,
    };
    let domain_eq = match (&a.domain, &b.domain) {
        (Some(x), Some(y)) => bytes_eq(x, y),
        (None, None) => true,
        _ => false,
    };
    proof {
        if ip_eq && domain_eq {
            assert(a@ =~= b@);
        }
    }
    ip_eq && domain_eq
}

/// Whether a descriptor carries at least one non-empty reachability field.
pub fn api_has_reachability(a: &WorkerAPI) -> (r: bool)
    ensures
        r == api_valid(a@),
{
    let ip_ok = match a.ip {
        Some(ip) => ip.ipv4.is_some() || ip.ipv6.is_some(),
        None => false,
    };
    let domain_ok = match &a.domain {
        Some(d) => d.len() > 0,
        None => false,
    };
    ip_ok || domain_ok
}

/// A copy of a byte vector.
pub fn clone_bytes(d: &Vec<u8>) -> (r: Vec<u8>)
    ensures
        r@ == d@,
{
    let mut r: Vec<u8> = Vec::new();
    let mut i: usize = 0;
    while i < d.len()
        invariant
            i <= d@.len(),
            r@ =~= d@.subrange(0, i as int),
        decreases d@.len() - i,
    {
        r.push(d[i]);
        i = i + 1;
    }
    proof {
        assert(d@.subrange(0, d@.len() as int) =~= d@);
    }
    r
}

/// A copy of a reachability descriptor, equal in value to the original.
pub fn clone_api(a: &WorkerAPI) -> (r: WorkerAPI)
    ensures
        r@ == a@,
{
    let domain = match &a.domain {
        Some(d) => Some(clone_bytes(d)),
        None => None,
    };
    let r = WorkerAPI { ip: a.ip, domain };
    proof {
        assert(r@ =~= a@);
    }
    r
}

/// A copy of a worker record, equal in value to the original.
pub fn clone_worker(w: &Worker) -> (r: Worker)
    ensures
        r@ == w@,
{
    let r = Worker {
        id: w.id,
        owner: w.owner,
        start_block: w.start_block,
        status: w.status,
        status_last_updated: w.status_last_updated,
        api: clone_api(&w.api),
    };
    proof {
        assert(r@ =~= w@);
    }
    r
}

} // verus!
