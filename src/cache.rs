use vstd::prelude::*;

verus! {

/// Whether a cache whose age is `age_ms` may still be used when entries
/// older than `max_age_ms` are stale; an unknown age (no file, or a clock
/// that went backwards) means no.
pub fn cache_is_valid(age_ms: Option<u64>, max_age_ms: u64) -> (r: bool)
    ensures
        r == match age_ms {
            Some(a) => a < max_age_ms,
            None => false,
        },
{
    match age_ms {
        Some(a) => a < max_age_ms,
        None => false,
    }
}

/// Fetches fresh data with `fetch` and stores it with `store` under `path`.
/// Succeeds with the data exactly when both steps succeed; otherwise fails
/// with the first error, and `store` is not called when `fetch` failed.
pub fn fetch_fn_to_cache<T, E, F, W>(fetch: F, store: W, path: &str) -> (r: Result<T, E>)
    where
        F: FnOnce() -> Result<T, E>,
        W: FnOnce(&T, &str) -> Result<(), E>,
    requires
        fetch.requires(()),
        forall|d: &T| #[trigger] store.requires((d, path)),
    ensures
        match r {
            Ok(d) => fetch.ensures((), Ok(d)) && store.ensures((&d, path), Ok(())),
            Err(e) => fetch.ensures((), Err(e)) || exists|d: T|
                fetch.ensures((), Ok(d)) && #[trigger] store.ensures((&d, path), Err(e)),
        },
{
    let fetched = fetch();
    let data = match fetched {
        Ok(d) => d,
        Err(e) => return Err(e),
    };
    let stored = store(&data, path);
    match stored {
        Ok(_unit) => {
            assert(stored == Ok::<(), E>(()));
            Ok(data)
        },
        Err(e) => Err(e),
    }
}

/// Decides between the cached data and a fresh fetch. Valid cached data is
/// used as it is, with no fetch. Stale cached data is replaced by a fresh
/// fetch, and kept if that fails. Without cached data the fetch decides.
pub fn read_or_renew_cache<T, E, F, W>(
    cached: Result<T, E>,
    valid: bool,
    fetch: F,
    store: W,
    path: &str,
) -> (r: Result<T, E>)
    where
        F: FnOnce() -> Result<T, E>,
        W: FnOnce(&T, &str) -> Result<(), E>,
    requires
        fetch.requires(()),
        forall|d: &T| #[trigger] store.requires((d, path)),
    ensures
        cached is Ok && valid ==> r == cached,
        cached is Ok && !valid ==> match r {
            Ok(d) => (fetch.ensures((), Ok(d)) && store.ensures((&d, path), Ok(()))) || (d
                == cached->Ok_0 && ((exists|e: E| #[trigger] fetch.ensures((), Err(e))) || exists|
                f: T,
                e: E,
            |
                fetch.ensures((), Ok(f)) && #[trigger] store.ensures((&f, path), Err(e)))),
            Err(_) => false,
        },
        cached is Err ==> match r {
            Ok(d) => fetch.ensures((), Ok(d)) && store.ensures((&d, path), Ok(())),
            Err(e) => fetch.ensures((), Err(e)) || exists|d: T|
                fetch.ensures((), Ok(d)) && #[trigger] store.ensures((&d, path), Err(e)),
        },
{
    match cached {
        Ok(c) => {
            if valid {
                Ok(c)
            } else {
                match fetch_fn_to_cache(fetch, store, path) {
                    Ok(d) => Ok(d),
                    Err(_) => Ok(c),
                }
            }
        },
        Err(_) => fetch_fn_to_cache(fetch, store, path),
    }
}

} // verus!
