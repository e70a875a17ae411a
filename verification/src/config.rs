//! What a run is set up with: which relay is asked, and where the cache is
//! kept.

use vstd::prelude::*;

verus! {

/// The relay that is asked where the caller names none.
pub const DEFAULT_RELAY: &'static str = "wss://relay.damus.io";

/// The environment variable that names the directory of the cache.
pub const CACHE_DIR_VARIABLE: &'static str = "NOSTR_LIKES_CACHE_DIR";

/// The namespace under which the platform keeps the application's files.
pub const APPLICATION_NAMESPACE: &'static str = "net.bouzuya.lab.nostr-likes";

/// The name of the file, inside the directory of the cache, that holds it.
pub const CACHE_FILE_NAME: &'static str = "events.json";

/// The address of the relay to ask: the one that is named, else
/// `DEFAULT_RELAY`.
pub fn relay_url(named: Option<String>) -> (url: String)
    ensures
        url@ == match named {
            Some(name) => name@,
            None => DEFAULT_RELAY@,
        },
{
    match named {
        Some(name) => name,
        None => DEFAULT_RELAY.to_owned(),
    }
}

/// The directory of the cache.
#[derive(Debug, PartialEq, Eq)]
pub enum CacheDir<P> {
    /// This directory.
    Given(P),
    /// The directory that the platform keeps for cached files of the
    /// application, under `APPLICATION_NAMESPACE`.
    OfPlatform,
}

/// The directory of the cache: the one that `CACHE_DIR_VARIABLE` names where
/// it is set, else the platform's.
pub fn cache_dir<P>(variable: Option<P>) -> (dir: CacheDir<P>)
    ensures
        dir == match variable {
            Some(path) => CacheDir::Given(path),
            None => CacheDir::OfPlatform,
        },
{
    match variable {
        Some(path) => CacheDir::Given(path),
        None => CacheDir::OfPlatform,
    }
}

} // verus!
