use std::cell::Cell;

use gwrust::cache::{cache_is_valid, fetch_fn_to_cache, read_or_renew_cache};

#[test]
fn cache_age_decides_validity() {
    assert!(cache_is_valid(Some(599_999), 600_000));
    assert!(!cache_is_valid(Some(600_000), 600_000));
    assert!(!cache_is_valid(None, 600_000));
}

#[test]
fn fetch_stores_and_returns_data() {
    let stored = Cell::new(None);
    let r: Result<Vec<u32>, String> =
        fetch_fn_to_cache(|| Ok(vec![1, 2]), |d: &Vec<u32>, p: &str| {
            stored.set(Some((d.clone(), p.to_string())));
            Ok(())
        }, "Events.json");
    assert_eq!(r, Ok(vec![1, 2]));
    assert_eq!(stored.take(), Some((vec![1, 2], "Events.json".to_string())));
}

#[test]
fn fetch_error_skips_the_store() {
    let called = Cell::new(false);
    let r: Result<u8, String> = fetch_fn_to_cache(|| Err("offline".to_string()), |_: &u8, _: &str| {
        called.set(true);
        Ok(())
    }, "p");
    assert_eq!(r, Err("offline".to_string()));
    assert!(!called.get());
}

#[test]
fn store_error_is_returned() {
    let r: Result<u8, String> = fetch_fn_to_cache(|| Ok(3), |_: &u8, _: &str| Err("disk".to_string()), "p");
    assert_eq!(r, Err("disk".to_string()));
}

#[test]
fn valid_cache_is_used_without_fetching() {
    let fetched = Cell::new(false);
    let r: Result<u8, String> = read_or_renew_cache(Ok(1), true, || {
        fetched.set(true);
        Ok(2)
    }, |_: &u8, _: &str| Ok(()), "p");
    assert_eq!(r, Ok(1));
    assert!(!fetched.get());
}

#[test]
fn stale_cache_is_renewed_or_kept_on_failure() {
    let r: Result<u8, String> = read_or_renew_cache(Ok(1), false, || Ok(2), |_: &u8, _: &str| Ok(()), "p");
    assert_eq!(r, Ok(2));
    let r: Result<u8, String> =
        read_or_renew_cache(Ok(1), false, || Err("net".to_string()), |_: &u8, _: &str| Ok(()), "p");
    assert_eq!(r, Ok(1));
}

#[test]
fn missing_cache_is_fetched() {
    let r: Result<u8, String> =
        read_or_renew_cache(Err("none".to_string()), true, || Ok(2), |_: &u8, _: &str| Ok(()), "p");
    assert_eq!(r, Ok(2));
    let r: Result<u8, String> = read_or_renew_cache(
        Err("none".to_string()),
        false,
        || Err("net".to_string()),
        |_: &u8, _: &str| Ok(()),
        "p",
    );
    assert_eq!(r, Err("net".to_string()));
}

#[test]
fn stale_cache_is_kept_when_the_store_fails() {
    let r: Result<u8, String> =
        read_or_renew_cache(Ok(1), false, || Ok(2), |_: &u8, _: &str| Err("disk".to_string()), "p");
    assert_eq!(r, Ok(1));
}
