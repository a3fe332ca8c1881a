use cyborg_workers::registry::{Error, WorkerRegistry};
use cyborg_workers::worker::{Ip, WorkerAPI, WorkerKey, WorkerStatusType};

fn domain_api(name: &str) -> WorkerAPI {
    WorkerAPI { ip: None, domain: Some(name.as_bytes().to_vec()) }
}

#[test]
fn register_remove_scenario() {
    let mut reg = WorkerRegistry::new();
    let a: u64 = 1;

    // First registration for A with domain "d1" gets id 0, status Inactive.
    let r = reg.register_worker(a, domain_api("d1"), 10);
    assert_eq!(r, Ok(0));
    let w = reg.get_worker_cluster(&WorkerKey { owner: a, id: 0 }).unwrap();
    assert_eq!(w.status, WorkerStatusType::Inactive);
    assert_eq!(w.id, 0);
    assert_eq!(w.owner, a);
    assert_eq!(w.start_block, 10);

    // Registering "d1" again fails with WorkerExists.
    let r = reg.register_worker(a, domain_api("d1"), 11);
    assert_eq!(r, Err(Error::WorkerExists));

    // A different domain gets the next id.
    let r = reg.register_worker(a, domain_api("d2"), 12);
    assert_eq!(r, Ok(1));

    // Removing id 0 succeeds, and the record is gone.
    assert_eq!(reg.remove_worker(a, 0), Ok(()));
    assert!(reg.get_worker_cluster(&WorkerKey { owner: a, id: 0 }).is_none());

    // Removing id 0 again fails with WorkerDoesNotExist.
    assert_eq!(reg.remove_worker(a, 0), Err(Error::WorkerDoesNotExist));
}

#[test]
fn register_requires_reachability() {
    let mut reg = WorkerRegistry::new();
    let a: u64 = 7;

    // Neither ip nor domain.
    let r = reg.register_worker(a, WorkerAPI { ip: None, domain: None }, 1);
    assert_eq!(r, Err(Error::WorkerRegisterMissingIpOrDomain));

    // An empty domain does not count as reachability.
    let r = reg.register_worker(a, WorkerAPI { ip: None, domain: Some(Vec::new()) }, 1);
    assert_eq!(r, Err(Error::WorkerRegisterMissingIpOrDomain));

    // An ip descriptor without any address does not count either.
    let ip = Ip { ipv4: None, ipv6: None, port: 8080 };
    let r = reg.register_worker(a, WorkerAPI { ip: Some(ip), domain: None }, 1);
    assert_eq!(r, Err(Error::WorkerRegisterMissingIpOrDomain));

    // An ipv4 address alone is enough.
    let ip = Ip { ipv4: Some(10), ipv6: None, port: 8080 };
    let r = reg.register_worker(a, WorkerAPI { ip: Some(ip), domain: None }, 1);
    assert_eq!(r, Ok(0));
}

#[test]
fn ids_strictly_increase_per_owner() {
    let mut reg = WorkerRegistry::new();
    let a: u64 = 3;
    let b: u64 = 4;
    assert_eq!(reg.register_worker(a, domain_api("a0"), 1), Ok(0));
    assert_eq!(reg.register_worker(a, domain_api("a1"), 2), Ok(1));
    assert_eq!(reg.register_worker(a, domain_api("a2"), 3), Ok(2));
    // Ids are scoped per owner: another account starts at 0.
    assert_eq!(reg.register_worker(b, domain_api("a0"), 4), Ok(0));
}

#[test]
fn removed_ids_are_not_reused() {
    let mut reg = WorkerRegistry::new();
    let a: u64 = 9;
    assert_eq!(reg.register_worker(a, domain_api("d1"), 1), Ok(0));
    assert_eq!(reg.remove_worker(a, 0), Ok(()));
    // The same descriptor can be registered again, but under a fresh id.
    assert_eq!(reg.register_worker(a, domain_api("d1"), 2), Ok(1));
    assert!(reg.get_worker_cluster(&WorkerKey { owner: a, id: 0 }).is_none());
}

#[test]
fn remove_nonexistent_leaves_storage_unchanged() {
    let mut reg = WorkerRegistry::new();
    let a: u64 = 5;
    assert_eq!(reg.register_worker(a, domain_api("d1"), 1), Ok(0));
    assert_eq!(reg.remove_worker(a, 99), Err(Error::WorkerDoesNotExist));
    assert_eq!(reg.remove_worker(6, 0), Err(Error::WorkerDoesNotExist));
    // The registered worker is untouched.
    let w = reg.get_worker_cluster(&WorkerKey { owner: a, id: 0 }).unwrap();
    assert_eq!(w.id, 0);
    assert_eq!(reg.get_active_workers().len(), 0);
}

#[test]
fn owners_cannot_collide_across_accounts() {
    let mut reg = WorkerRegistry::new();
    // The same descriptor under two different owners is not a duplicate.
    assert_eq!(reg.register_worker(1, domain_api("shared"), 1), Ok(0));
    assert_eq!(reg.register_worker(2, domain_api("shared"), 1), Ok(0));
}

#[test]
fn active_workers_listing() {
    let mut reg = WorkerRegistry::new();
    let a: u64 = 11;

    // Empty registry: an empty vector, not an error.
    assert!(reg.get_active_workers().is_empty());

    assert_eq!(reg.register_worker(a, domain_api("d1"), 1), Ok(0));
    assert_eq!(reg.register_worker(a, domain_api("d2"), 1), Ok(1));

    // Freshly registered workers are Inactive and not listed.
    assert!(reg.get_active_workers().is_empty());

    // Flip worker 1 to Active through the capability interface.
    let key = WorkerKey { owner: a, id: 1 };
    let mut w = reg.get_worker_cluster(&key).unwrap();
    w.status = WorkerStatusType::Active;
    w.status_last_updated = 2;
    reg.update_worker_cluster(&key, w);

    let active = reg.get_active_workers();
    assert_eq!(active.len(), 1);
    assert_eq!(active[0].0, key);
    assert_eq!(active[0].1.status, WorkerStatusType::Active);
    assert_eq!(active[0].1.status_last_updated, 2);

    // Removing it empties the listing again.
    assert_eq!(reg.remove_worker(a, 1), Ok(()));
    assert!(reg.get_active_workers().is_empty());
}

#[test]
fn duplicate_check_compares_whole_descriptor() {
    let mut reg = WorkerRegistry::new();
    let a: u64 = 21;
    let ip1 = Ip { ipv4: Some(10), ipv6: None, port: 80 };
    let ip2 = Ip { ipv4: Some(11), ipv6: None, port: 80 };
    let d = || Some("d1".as_bytes().to_vec());

    let api1 = WorkerAPI { ip: Some(ip1), domain: d() };
    let api2 = WorkerAPI { ip: Some(ip2), domain: d() };
    let api1_again = WorkerAPI { ip: Some(ip1), domain: d() };

    assert_eq!(reg.register_worker(a, api1, 1), Ok(0));
    // Same domain but a different ip descriptor is a different worker.
    assert_eq!(reg.register_worker(a, api2, 1), Ok(1));
    // The exact same descriptor is rejected.
    assert_eq!(reg.register_worker(a, api1_again, 1), Err(Error::WorkerExists));
}

#[test]
fn worker_count_default_is_zero() {
    assert_eq!(cyborg_workers::registry::WorkerCountDefault(), 0);
}
