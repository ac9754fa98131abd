//! A cache that delegates to an interchangeable strategy.

use vstd::prelude::*;

verus! {

/// How a cache stores, finds and drops values; implemented by its users.
pub trait CacheStrategy {
    fn get(&self, key: &str) -> Option<String>;

    fn set(&self, key: &str, value: String);

    fn delete(&self, key: &str);
}

/// A cache that hands every request to its strategy.
pub struct CacheContext<S: CacheStrategy> {
    strategy: S,
}

impl<S: CacheStrategy> CacheContext<S> {
    /// The strategy in use.
    pub closed spec fn strategy(&self) -> S {
        self.strategy
    }

    /// A cache using `strategy`.
    pub fn new(strategy: S) -> (r: Self)
        ensures
            r.strategy() == strategy,
    {
        CacheContext { strategy }
    }

    /// The strategy's value for `key`.
    pub fn get(&self, key: &str) -> Option<String> {
        self.strategy.get(key)
    }

    /// Stores `value` under `key` with the strategy.
    pub fn set(&self, key: &str, value: String) {
        self.strategy.set(key, value);
    }
}

} // verus!
