//! The price oracle cache: the latest known price of one SOL.

use vstd::prelude::*;

verus! {

/// Seconds between two tries to fetch a quote.
pub const REFRESH_INTERVAL_SECS: u64 = 15;

/// Holds the latest quote of the price of one SOL, in millionths of a
/// dollar. A cache that never saw a quote holds zero.
pub struct PriceOracleCache {
    price: u64,
}

impl View for PriceOracleCache {
    type V = u64;

    /// The cached price.
    closed spec fn view(&self) -> u64 {
        self.price
    }
}

impl PriceOracleCache {
    /// Makes a cache that has seen no quote yet.
    pub fn new() -> (cache: Self)
        ensures
            cache@ == 0,
    {
        PriceOracleCache { price: 0 }
    }

    /// Returns the cached price, which may be stale.
    pub fn read(&self) -> (price: u64)
        ensures
            price == self@,
    {
        self.price
    }

    /// Takes the outcome of one try to fetch a quote: a quote replaces the
    /// cached price, a failed try leaves it as it is. Returns the price that
    /// the cache holds from now on.
    pub fn refresh(&mut self, quote: Option<u64>) -> (price: u64)
        ensures
            final(self)@ == match quote {
                Some(fresh) => fresh,
                None => old(self)@,
            },
            price == final(self)@,
    {
        match quote {
            Some(fresh) => {
                self.price = fresh;
            },
            None => {},
        }
        self.price
    }
}

} // verus!
