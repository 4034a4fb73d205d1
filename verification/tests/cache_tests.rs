use proxy_core::cache::Cache;
use proxy_core::connect::Metadata;
use proxy_core::discovery::{p2c_pick, Pool, Resolver, Update};
use proxy_core::net::{IpAddress, SockAddr};

fn sock(d: u8, port: u16) -> SockAddr {
    SockAddr { ip: IpAddress::V4(10, 0, 0, d), port }
}

#[test]
fn cache_constructs_each_key_once() {
    let mut cache: Cache<u32> = Cache::new(60_000);
    let key = b"web.example.com:80".to_vec();
    let mut builds = 0u32;
    for i in 0..10u64 {
        let built = cache.get_or_make(key.clone(), 7, i);
        if built {
            builds += 1;
        }
    }
    assert_eq!(builds, 1);
}

#[test]
fn cache_counts_builds_per_key() {
    let mut cache: Cache<u32> = Cache::new(60_000);
    assert!(cache.get_or_make(b"a:1".to_vec(), 1, 0));
    assert!(!cache.get_or_make(b"a:1".to_vec(), 2, 1));
    assert!(cache.get_or_make(b"b:2".to_vec(), 3, 2));
}

#[test]
fn cache_idle_entry_is_evicted_only_after_the_idle_age() {
    let mut cache: Cache<u32> = Cache::new(1_000);
    let key = b"a:1".to_vec();
    cache.get_or_make(key.clone(), 1, 0);
    cache.release(&key);
    // Used at 0; not yet idle for the full age.
    assert!(!cache.evict_if_idle(&key, 999));
    // Exactly the idle age: evicted.
    assert!(cache.evict_if_idle(&key, 1_000));
    // A second lookup constructs anew.
    assert!(cache.get_or_make(key.clone(), 2, 1_500));
}

#[test]
fn cache_referenced_entry_is_retained() {
    let mut cache: Cache<u32> = Cache::new(1_000);
    let key = b"a:1".to_vec();
    cache.get_or_make(key.clone(), 1, 0);
    // One reference still out: never evicted, however idle.
    assert!(!cache.evict_if_idle(&key, 10_000));
    cache.release(&key);
    assert!(cache.evict_if_idle(&key, 10_000));
}

#[test]
fn cache_use_resets_the_idle_clock() {
    let mut cache: Cache<u32> = Cache::new(1_000);
    let key = b"a:1".to_vec();
    cache.get_or_make(key.clone(), 1, 0);
    cache.release(&key);
    assert!(!cache.get_or_make(key.clone(), 9, 900));
    cache.release(&key);
    // Last used at 900, so 1_500 is not yet idle for the full age.
    assert!(!cache.evict_if_idle(&key, 1_500));
    assert!(cache.evict_if_idle(&key, 1_900));
}

#[test]
fn resolutions_are_reused() {
    let addr = b"foo.ns1.serviceaccount.identity.linkerd.cluster.local:5550".to_vec();
    let mut resolver = Resolver::new(vec![addr.clone()]);
    let mut profiles = Resolver::new(vec![addr.clone()]);
    let mut cache: Cache<u8> = Cache::new(60_000);
    for conn in 0..10u64 {
        let built = cache.get_or_make(addr.clone(), 0, conn);
        if built {
            // Only the first connection subscribes; the rest share it.
            resolver.subscribe(&addr);
            profiles.subscribe(&addr);
        }
    }
    for _ in 0..10 {
        cache.release(&addr);
    }
    resolver.unsubscribe();
    profiles.unsubscribe();
    assert!(resolver.is_empty());
    assert!(
        resolver.only_configured(),
        "destinations were resolved multiple times for the same address!"
    );
    assert!(profiles.is_empty());
    assert!(
        profiles.only_configured(),
        "profiles were resolved multiple times for the same address!"
    );
}

#[test]
fn resolver_reports_duplicate_and_foreign_resolutions() {
    let addr = b"a:1".to_vec();
    let mut r = Resolver::new(vec![addr.clone()]);
    r.subscribe(&addr);
    assert!(r.only_configured());
    r.subscribe(&addr);
    assert!(!r.only_configured(), "a duplicate resolution must be reported");

    let mut r2 = Resolver::new(vec![addr.clone()]);
    r2.subscribe(&b"other:2".to_vec());
    assert!(!r2.only_configured(), "an unconfigured resolution must be reported");
}

#[test]
fn pool_applies_updates_in_order() {
    let mut pool = Pool::new();
    let meta = Metadata { identity: None, opaque_transport_port: None };
    pool.apply(Update::Add(sock(1, 80), meta.clone()));
    pool.apply(Update::Add(sock(2, 80), meta.clone()));
    assert_eq!(pool.len(), 2);
    pool.apply(Update::Remove(sock(1, 80)));
    assert_eq!(pool.len(), 1);
    assert!(!pool.is_terminal());
    pool.apply(Update::Empty);
    assert_eq!(pool.len(), 0);
    assert!(!pool.is_terminal());
    pool.apply(Update::Add(sock(3, 80), meta.clone()));
    pool.apply(Update::DoesNotExist);
    assert_eq!(pool.len(), 0);
    assert!(pool.is_terminal());
}

#[test]
fn pool_add_replaces_metadata_for_an_existing_endpoint() {
    let mut pool = Pool::new();
    let plain = Metadata { identity: None, opaque_transport_port: None };
    let hinted = Metadata { identity: Some(b"id".to_vec()), opaque_transport_port: Some(4143) };
    pool.apply(Update::Add(sock(1, 80), plain));
    pool.apply(Update::Add(sock(1, 80), hinted));
    assert_eq!(pool.len(), 1);
}

#[test]
fn p2c_prefers_lower_load_then_latency() {
    assert!(p2c_pick(1, 50, 2, 10));
    assert!(!p2c_pick(3, 10, 2, 50));
    assert!(p2c_pick(2, 10, 2, 50));
    assert!(!p2c_pick(2, 50, 2, 10));
    assert!(p2c_pick(2, 10, 2, 10));
}
