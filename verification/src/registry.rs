//! In-process benchmark registry.
//!
//! A registry maps benchmark identifiers to benchmark operations.  Keys are
//! unique; the registry is built once at harness startup and only read
//! afterwards.  Benchmark work is dispatched through the [`BenchmarkFn`]
//! trait: one method that runs a single iteration and reports its own
//! measurement.

use vstd::prelude::*;

verus! {

/// A benchmark operation that can be run on demand.
///
/// An implementation executes exactly one iteration of the benchmark and
/// returns the duration it took, in nanoseconds.  What the iteration does
/// is the implementor's business; nothing is promised of the returned
/// measurement.
pub trait BenchmarkFn {
    /// Run one iteration and return its measured duration in nanoseconds.
    fn measure(&self) -> u64;
}

/// Registry of benchmarks, keyed by unique identifier.
pub struct BenchmarkRegistry<F: BenchmarkFn> {
    entries: Vec<(String, F)>,
}

impl<F: BenchmarkFn> BenchmarkRegistry<F> {
    /// The registered identifiers, in registration order.
    pub closed spec fn keys(&self) -> Seq<Seq<char>> {
        self.entries@.map_values(|e: (String, F)| e.0@)
    }

    /// Identifiers are unique.
    pub open spec fn wf(&self) -> bool {
        forall|i: int, j: int|
            0 <= i < j < self.keys().len() ==> #[trigger] self.keys()[i] != #[trigger] self.keys()[j]
    }

    /// Whether an identifier is registered.
    pub open spec fn spec_contains(&self, key: Seq<char>) -> bool {
        self.keys().contains(key)
    }

    /// Create a new empty benchmark registry.
    pub fn new() -> (r: BenchmarkRegistry<F>)
        ensures
            r.keys() =~= Seq::<Seq<char>>::empty(),
            r.wf(),
    {
        BenchmarkRegistry { entries: Vec::new() }
    }

    /// Find the position of an identifier, if registered.
    fn position_of(&self, name: &str) -> (r: Option<usize>)
        ensures
            match r {
                Some(i) => i < self.keys().len() && self.keys()[i as int] == name@,
                None => !self.spec_contains(name@),
            },
    {
        let key = name.to_owned();
        let mut i: usize = 0;
        while i < self.entries.len()
            invariant
                0 <= i <= self.entries@.len(),
                key@ == name@,
                forall|j: int| 0 <= j < i ==> #[trigger] self.keys()[j] != name@,
            decreases self.entries@.len() - i,
        {
            if self.entries[i].0 == key {
                return Some(i);
            }
            i = i + 1;
        }
        None
    }

    /// Register a benchmark under the given identifier.  A second
    /// registration under an identifier already present replaces the
    /// operation and leaves the key set unchanged.
    pub fn register(&mut self, name: String, f: F)
        requires
            old(self).wf(),
        ensures
            final(self).wf(),
            old(self).spec_contains(name@) ==> final(self).keys() == old(self).keys(),
            !old(self).spec_contains(name@) ==> final(self).keys() =~= old(self).keys().push(name@),
            final(self).spec_contains(name@),
    {
        let position = self.position_of(name.as_str());
        match position {
            Some(i) => {
                self.entries.set(i, (name, f));
                proof {
                    assert(self.keys() =~= old(self).keys());
                }
            },
            None => {
                self.entries.push((name, f));
                proof {
                    assert(self.keys() =~= old(self).keys().push(name@));
                    assert(self.keys().last() == name@);
                }
            },
        }
    }

    /// List all registered benchmark identifiers, in registration order.
    pub fn list(&self) -> (r: Vec<String>)
        ensures
            r@.map_values(|s: String| s@) =~= self.keys(),
    {
        let mut names: Vec<String> = Vec::new();
        let mut i: usize = 0;
        while i < self.entries.len()
            invariant
                0 <= i <= self.entries@.len(),
                names@.len() == i,
                forall|j: int| 0 <= j < i ==> #[trigger] names@[j]@ == self.keys()[j],
            decreases self.entries@.len() - i,
        {
            names.push(self.entries[i].0.clone());
            i = i + 1;
        }
        names
    }

    /// Run one iteration of a benchmark by identifier and return its
    /// duration in nanoseconds, or `None` if no benchmark with the given
    /// identifier is registered.  Running leaves the registry unchanged.
    pub fn run(&self, name: &str) -> (r: Option<u64>)
        ensures
            r is Some <==> self.spec_contains(name@),
    {
        let position = self.position_of(name);
        match position {
            Some(i) => Some(self.entries[i].1.measure()),
            None => None,
        }
    }

    /// Whether a benchmark with the given identifier is registered.
    pub fn contains(&self, name: &str) -> (r: bool)
        ensures
            r == self.spec_contains(name@),
    {
        let position = self.position_of(name);
        match position {
            Some(_) => true,
            None => false,
        }
    }

    /// The number of registered benchmarks.
    pub fn len(&self) -> (r: usize)
        ensures
            r == self.keys().len(),
    {
        self.entries.len()
    }

    /// Whether the registry is empty.
    pub fn is_empty(&self) -> (r: bool)
        ensures
            r == (self.keys().len() == 0),
    {
        self.entries.len() == 0
    }
}

impl<F: BenchmarkFn> Default for BenchmarkRegistry<F> {
    /// The default registry is empty.
    fn default() -> (r: BenchmarkRegistry<F>)
        ensures
            r.keys() =~= Seq::<Seq<char>>::empty(),
            r.wf(),
    {
        BenchmarkRegistry::new()
    }
}

} // verus!
