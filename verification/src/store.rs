//! The store of the current pool generation.

use crate::pool::Pool;
use vstd::prelude::*;

verus! {

/// A store as a mathematical value.
pub struct StoreState {
    /// The endpoints of the current generation.
    pub pool: Seq<Seq<char>>,
    /// How many generations were published, counted up to `u64::MAX`.
    pub published: nat,
}

impl StoreState {
    /// The store before the first generation.
    pub open spec fn vacant() -> StoreState {
        StoreState { pool: Seq::empty(), published: 0 }
    }

    /// What holds of every store: no endpoint twice, and nothing to read
    /// before the first generation.
    pub open spec fn valid(self) -> bool {
        &&& self.pool.no_duplicates()
        &&& self.published <= u64::MAX
        &&& self.published == 0 ==> self.pool.len() == 0
    }

    /// The store after `next` took the place of the current generation.
    pub open spec fn replaced(self, next: Seq<Seq<char>>) -> StoreState {
        StoreState {
            pool: next,
            published: if self.published < u64::MAX {
                self.published + 1
            } else {
                self.published
            },
        }
    }

    /// Number of the current generation, the first being 0.
    pub open spec fn generation(self) -> Option<nat> {
        if self.published == 0 {
            None
        } else {
            Some((self.published - 1) as nat)
        }
    }
}

/// Holds the current pool generation. A reader gets the whole of one
/// generation; a writer puts a whole generation in its place.
#[derive(Debug)]
pub struct PoolStore {
    current: Pool,
    published: u64,
}

impl View for PoolStore {
    type V = StoreState;

    closed spec fn view(&self) -> StoreState {
        StoreState { pool: self.current@, published: self.published as nat }
    }
}

impl PoolStore {
    #[verifier::type_invariant]
    spec fn settled(&self) -> bool {
        self.published == 0 ==> self.current@.len() == 0
    }

    /// A store without a generation; it reads as an empty pool.
    pub fn new() -> (store: PoolStore)
        ensures
            store@ == StoreState::vacant(),
            store@.valid(),
    {
        PoolStore { current: Pool::new(), published: 0 }
    }

    /// The endpoints of the current generation, copied out.
    pub fn snapshot(&self) -> (list: Vec<String>)
        ensures
            list.deep_view() == self@.pool,
            list.deep_view().no_duplicates(),
    {
        let entries = self.current.endpoints();
        let list = entries.clone();
        assert(list.deep_view() =~= entries.deep_view());
        list
    }

    /// The current generation, borrowed.
    pub fn current(&self) -> (pool: &Pool)
        ensures
            pool@ == self@.pool,
    {
        &self.current
    }

    /// Puts `next` in the place of the current generation.
    pub fn replace(&mut self, next: Pool)
        ensures
            final(self)@ == old(self)@.replaced(next@),
            final(self)@.valid(),
    {
        let published = if self.published < u64::MAX {
            self.published + 1
        } else {
            self.published
        };
        proof {
            use_type_invariant(&next);
        }
        *self = PoolStore { current: next, published };
    }

    /// Number of endpoints in the current generation.
    pub fn len(&self) -> (n: usize)
        ensures
            n == self@.pool.len(),
    {
        self.current.len()
    }

    /// Whether a first generation has been published.
    pub fn is_ready(&self) -> (ready: bool)
        ensures
            ready == (self@.published > 0),
    {
        self.published > 0
    }

    /// Number of the current generation, the first being 0.
    pub fn generation(&self) -> (number: Option<u64>)
        ensures
            match number {
                Some(n) => self@.generation() == Some(n as nat),
                None => self@.generation().is_none(),
            },
    {
        if self.published == 0 {
            None
        } else {
            Some(self.published - 1)
        }
    }
}

} // verus!
