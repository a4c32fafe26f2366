//! Weinstein conjecture bookkeeping: a verifier collects closed Reeb orbits
//! and is satisfied once it holds at least its minimum number of them.

use vstd::prelude::*;

verus! {

/// Weinstein conjecture verification for a (2n+1)-dimensional contact manifold.
/// `O` is the type of the closed Reeb orbits it collects.
#[derive(Debug)]
pub struct WeinsteinVerifier<O> {
    pub n: usize,
    /// Known minimum number of Reeb orbits.
    pub min_orbits: usize,
    /// Found orbits.
    pub orbits: Vec<O>,
}

impl<O> WeinsteinVerifier<O> {
    /// The conjecture holds for this verifier: it found at least `min_orbits` orbits.
    pub open spec fn satisfied(&self) -> bool {
        self.orbits@.len() >= self.min_orbits
    }

    /// A verifier with no orbits yet, asking for at least one.
    pub fn new(n: usize) -> (v: Self)
        ensures
            v.n == n,
            v.min_orbits == 1,
            v.orbits@.len() == 0,
    {
        Self { n, min_orbits: 1, orbits: Vec::new() }
    }

    /// A fresh verifier (as from `new`) that holds the given orbits.
    pub fn with_orbits(n: usize, orbits: Vec<O>) -> (v: Self)
        ensures
            v.n == n,
            v.min_orbits == 1,
            v.orbits@ == orbits@,
    {
        let mut verifier = Self::new(n);
        verifier.orbits = orbits;
        verifier
    }

    /// Whether at least `min_orbits` closed orbits were found.
    pub fn weinstein_satisfied(&self) -> (b: bool)
        ensures
            b == self.satisfied(),
            b == (self.orbits@.len() >= self.min_orbits),
    {
        self.orbits.len() >= self.min_orbits
    }

    /// Total number of found orbits.
    pub fn num_orbits(&self) -> (k: usize)
        ensures
            k == self.orbits@.len(),
    {
        self.orbits.len()
    }
}

/// A verifier that has found no orbit is not satisfied, whatever its dimension.
pub proof fn lemma_fresh_verifier_unsatisfied<O>(v: WeinsteinVerifier<O>)
    requires
        v.min_orbits == 1,
        v.orbits@.len() == 0,
    ensures
        !v.satisfied(),
{
}

/// A verifier asking for one orbit is satisfied as soon as it holds one.
pub proof fn lemma_one_orbit_suffices<O>(v: WeinsteinVerifier<O>)
    requires
        v.min_orbits == 1,
        v.orbits@.len() >= 1,
    ensures
        v.satisfied(),
{
}

/// Whatever the minimum, a verifier is satisfied exactly when it holds at least
/// that many orbits; in particular one holding exactly `min_orbits` orbits is.
pub proof fn lemma_satisfied_exactly_when_enough_orbits<O>(v: WeinsteinVerifier<O>)
    ensures
        v.satisfied() <==> v.orbits@.len() >= v.min_orbits,
        v.orbits@.len() == v.min_orbits ==> v.satisfied(),
        v.orbits@.len() < v.min_orbits ==> !v.satisfied(),
{
}

/// Finding more orbits never undoes satisfaction: of two verifiers with the same
/// minimum, the one with more orbits is satisfied whenever the other is.
pub proof fn lemma_satisfied_monotone_in_orbits<O>(v: WeinsteinVerifier<O>, w: WeinsteinVerifier<O>)
    requires
        v.min_orbits == w.min_orbits,
        v.orbits@.len() <= w.orbits@.len(),
        v.satisfied(),
    ensures
        w.satisfied(),
{
}

} // verus!
