use stream::endpoint::{supports, Endpoint};

#[test]
fn only_the_cache_service_is_supported() {
    assert!(supports("cs"));
    assert!(!supports("pipe"));
    assert!(!supports(""));
    assert!(!supports("c"));
    assert!(!supports("css"));
    assert!(!supports("CS"));
}

#[test]
fn endpoint_wraps_what_was_discovered() {
    let found: Result<u8, String> = Ok(4);
    match Endpoint::from_discovery("cs", found) {
        Ok(Endpoint::CacheService(service)) => assert_eq!(service, 4),
        Err(_) => panic!("expected an endpoint"),
    }
    let missing: Result<u8, String> = Err("no service".to_string());
    match Endpoint::from_discovery("cs", missing) {
        Ok(_) => panic!("expected the error"),
        Err(e) => assert_eq!(e, "no service"),
    }
}

#[test]
fn endpoint_reaches_its_service() {
    let mut endpoint = Endpoint::CacheService(vec![1]);
    endpoint.service().push(2);
    let Endpoint::CacheService(service) = endpoint;
    assert_eq!(service, vec![1, 2]);
}
