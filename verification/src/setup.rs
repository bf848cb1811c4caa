//! Sizing of the universal setup, the cache that keeps loaded setups by size,
//! and the setup bundle of one proving session.

use crate::encoding::{is_encoding_of, serialize_proof, EncodedProofPlonk, PlonkProof};
use std::collections::HashMap;
use vstd::arithmetic::power2::{lemma2_to64, lemma_pow2_strictly_increases, lemma_pow2_unfold, pow2};
use vstd::prelude::*;

verus! {

broadcast use vstd::std_specs::hash::group_hash_axioms;

/// The smallest universal setup that exists holds `2^20` powers.
pub const SETUP_MIN_POW2: u32 = 20;

/// The largest universal setup that exists holds `2^26` powers.
pub const SETUP_MAX_POW2: u32 = 26;

/// Why no universal setup can be had.
#[derive(Clone, Copy, Debug, PartialEq, Eq, Structural)]
pub enum SetupError {
    /// The size exponent asked for lies outside
    /// `SETUP_MIN_POW2..=SETUP_MAX_POW2`.
    PowerOutOfRange,
    /// The circuit has more gates than the largest setup supports.
    CircuitTooLarge,
}

/// Why a proving session handed out no proof.
#[derive(Clone, Copy, Debug, PartialEq, Eq, Structural)]
pub enum ProveError {
    /// The proof did not pass the prover's own verification.
    InvalidProof,
}

/// `k` is the least exponent with `2^k >= n`.
pub open spec fn is_size_exponent(n: nat, k: nat) -> bool {
    pow2(k) >= n && (k == 0 || pow2((k - 1) as nat) < n)
}

/// `p` is the least exponent, not below the minimum, with `2^p >= n`.
pub open spec fn is_setup_power(n: nat, p: nat) -> bool {
    p >= SETUP_MIN_POW2 && pow2(p) >= n && (p == SETUP_MIN_POW2 || pow2((p - 1) as nat) < n)
}

/// Whether a setup exists for the size exponent.
pub open spec fn power_in_range(power_of_two: u32) -> bool {
    SETUP_MIN_POW2 <= power_of_two <= SETUP_MAX_POW2
}

/// Powers of two do not decrease with the exponent.
proof fn lemma_pow2_monotonic(e1: nat, e2: nat)
    requires
        e1 <= e2,
    ensures
        pow2(e1) <= pow2(e2),
{
    if e1 < e2 {
        lemma_pow2_strictly_increases(e1, e2);
    }
}

/// At most one exponent is the size exponent of `n`.
pub proof fn lemma_size_exponent_unique(n: nat, j: nat, k: nat)
    requires
        is_size_exponent(n, j),
        is_size_exponent(n, k),
    ensures
        j == k,
{
    if j < k {
        lemma_pow2_monotonic(j, (k - 1) as nat);
    } else if k < j {
        lemma_pow2_monotonic(k, (j - 1) as nat);
    }
}

/// The exponent of the least power of two that is not below `gate_count`.
pub fn size_exponent(gate_count: usize) -> (k: u32)
    ensures
        is_size_exponent(gate_count as nat, k as nat),
        k <= 64,
{
    let mut k: u32 = 0;
    let mut p: u128 = 1;
    proof {
        lemma2_to64();
    }
    while p < gate_count as u128
        invariant
            p == pow2(k as nat),
            k <= 64,
            k == 0 || pow2((k - 1) as nat) < gate_count,
        decreases 64 - k,
    {
        proof {
            lemma2_to64();
            lemma_pow2_unfold((k + 1) as nat);
        }
        p = p * 2;
        k = k + 1;
    }
    k
}

/// The size exponent of the setup for a circuit of `gate_count` gates: the
/// least that holds the circuit, but never below the minimum. A circuit too
/// large for the largest setup is an error.
pub fn setup_power_of_two(gate_count: usize) -> (r: Result<u32, SetupError>)
    ensures
        r.is_ok() <==> gate_count <= pow2(SETUP_MAX_POW2 as nat),
        match r {
            Ok(p) => is_setup_power(gate_count as nat, p as nat) && power_in_range(p),
            Err(e) => e == SetupError::CircuitTooLarge,
        },
{
    let size = size_exponent(gate_count);
    let power = if size < SETUP_MIN_POW2 {
        SETUP_MIN_POW2
    } else {
        size
    };
    proof {
        lemma_pow2_monotonic(size as nat, power as nat);
        if power <= SETUP_MAX_POW2 {
            lemma_pow2_monotonic(power as nat, SETUP_MAX_POW2 as nat);
        } else {
            lemma_pow2_monotonic(SETUP_MAX_POW2 as nat, (size - 1) as nat);
        }
    }
    if power > SETUP_MAX_POW2 {
        Err(SetupError::CircuitTooLarge)
    } else {
        Ok(power)
    }
}

/// Accepts a size exponent for which a setup exists and refuses any other;
/// to be asked before a setup file is touched.
pub fn check_setup_power(power_of_two: u32) -> (r: Result<(), SetupError>)
    ensures
        r.is_ok() <==> power_in_range(power_of_two),
        r.is_err() ==> r == Err::<(), SetupError>(SetupError::PowerOutOfRange),
{
    if SETUP_MIN_POW2 <= power_of_two && power_of_two <= SETUP_MAX_POW2 {
        Ok(())
    } else {
        Err(SetupError::PowerOutOfRange)
    }
}

/// Loaded universal setups, at most one per size exponent.
///
/// Setups are large and slow to load, so a session takes the one it needs
/// out of the cache and puts it back when it is done.
pub struct UniversalSetupCache<S> {
    data: HashMap<u32, S>,
}

impl<S> View for UniversalSetupCache<S> {
    type V = Map<u32, S>;

    closed spec fn view(&self) -> Map<u32, S> {
        self.data@
    }
}

impl<S> UniversalSetupCache<S> {
    /// An empty cache.
    pub fn new() -> (cache: Self)
        ensures
            cache@ == Map::<u32, S>::empty(),
    {
        UniversalSetupCache { data: HashMap::new() }
    }

    /// Takes the setup of the given size out of the cache, if it is there.
    pub fn take_setup_struct(&mut self, setup_power: u32) -> (r: Option<S>)
        ensures
            r == (if old(self)@.contains_key(setup_power) {
                Some(old(self)@[setup_power])
            } else {
                None
            }),
            final(self)@ == old(self)@.remove(setup_power),
    {
        self.data.remove(&setup_power)
    }

    /// Puts a setup into the cache, in place of the one of the same size.
    pub fn put_setup_struct(&mut self, setup_power: u32, setup: S)
        ensures
            final(self)@ == old(self)@.insert(setup_power, setup),
    {
        self.data.insert(setup_power, setup);
    }
}

/// A setup put into the cache is the one that the next take of that size
/// returns, and the take leaves the cache as it was before the put, but for
/// an older setup of that size.
pub proof fn lemma_put_then_take<S>(cache: Map<u32, S>, setup_power: u32, setup: S)
    ensures
        cache.insert(setup_power, setup).contains_key(setup_power),
        cache.insert(setup_power, setup)[setup_power] == setup,
        cache.insert(setup_power, setup).remove(setup_power) == cache.remove(setup_power),
{
    assert(cache.insert(setup_power, setup).remove(setup_power) =~= cache.remove(setup_power));
}

/// A size that nothing was put under is not in the cache: neither in an
/// empty cache, nor after a put under another size, nor after a take.
pub proof fn lemma_never_put_is_absent<S>(cache: Map<u32, S>, setup_power: u32, other: u32, setup: S)
    requires
        other != setup_power,
        !cache.contains_key(setup_power),
    ensures
        !Map::<u32, S>::empty().contains_key(setup_power),
        !cache.insert(other, setup).contains_key(setup_power),
        !cache.remove(other).contains_key(setup_power),
        !cache.remove(setup_power).contains_key(setup_power),
{
}

/// Looks for the universal setup of the given size: `Ok(Some(..))` is the
/// cached one, now taken out; `Ok(None)` says that it must be loaded; an
/// exponent for which nothing is cached and no setup exists is an error.
pub fn get_universal_setup_monomial_form<S>(
    cache: &mut UniversalSetupCache<S>,
    power_of_two: u32,
) -> (r: Result<Option<S>, SetupError>)
    ensures
        final(cache)@ == old(cache)@.remove(power_of_two),
        old(cache)@.contains_key(power_of_two) ==> r == Ok::<Option<S>, SetupError>(
            Some(old(cache)@[power_of_two]),
        ),
        !old(cache)@.contains_key(power_of_two) && power_in_range(power_of_two) ==> r == Ok::<
            Option<S>,
            SetupError,
        >(None),
        !old(cache)@.contains_key(power_of_two) && !power_in_range(power_of_two) ==> r == Err::<
            Option<S>,
            SetupError,
        >(SetupError::PowerOutOfRange),
{
    match cache.take_setup_struct(power_of_two) {
        Some(cached_setup) => Ok(Some(cached_setup)),
        None => match check_setup_power(power_of_two) {
            Ok(()) => Ok(None),
            Err(e) => Err(e),
        },
    }
}

/// What one proving session holds: the setup polynomials and transpilation
/// hints of the circuit, the size exponent, and the universal setup of that
/// size while the session has it.
pub struct SetupForStepByStepProver<P, H, S> {
    pub setup_polynomials: P,
    pub hints: H,
    pub setup_power_of_two: u32,
    pub key_monomial_form: Option<S>,
}

impl<P, H, S> SetupForStepByStepProver<P, H, S> {
    /// Sizes the setup for a circuit of `gate_count` gates and takes the
    /// universal setup of that size out of the cache. After a miss
    /// `key_monomial_form` is `None` and the setup has to be loaded.
    pub fn prepare_setup_for_step_by_step_prover(
        setup_polynomials: P,
        hints: H,
        gate_count: usize,
        cache: &mut UniversalSetupCache<S>,
    ) -> (r: Result<Self, SetupError>)
        ensures
            r.is_ok() <==> gate_count <= pow2(SETUP_MAX_POW2 as nat),
            match r {
                Ok(s) => {
                    &&& s.setup_polynomials == setup_polynomials
                    &&& s.hints == hints
                    &&& is_setup_power(gate_count as nat, s.setup_power_of_two as nat)
                    &&& power_in_range(s.setup_power_of_two)
                    &&& s.key_monomial_form == (if old(cache)@.contains_key(s.setup_power_of_two) {
                        Some(old(cache)@[s.setup_power_of_two])
                    } else {
                        None
                    })
                    &&& final(cache)@ == old(cache)@.remove(s.setup_power_of_two)
                },
                Err(e) => e == SetupError::CircuitTooLarge && final(cache)@ == old(cache)@,
            },
    {
        let setup_power_of_two = match setup_power_of_two(gate_count) {
            Ok(power) => power,
            Err(e) => {
                return Err(e);
            },
        };
        let key_monomial_form = cache.take_setup_struct(setup_power_of_two);
        Ok(SetupForStepByStepProver { setup_polynomials, hints, setup_power_of_two, key_monomial_form })
    }

    /// Closes a proving attempt: a proof that passed the prover's own
    /// verification is encoded and handed out, any other is withheld.
    pub fn gen_step_by_step_proof_using_prepared_setup(
        &self,
        proof: &PlonkProof,
        valid: bool,
    ) -> (r: Result<EncodedProofPlonk, ProveError>)
        ensures
            r.is_ok() <==> valid,
            match r {
                Ok(encoded) => is_encoding_of(encoded@, *proof),
                Err(e) => e == ProveError::InvalidProof,
            },
    {
        if !valid {
            return Err(ProveError::InvalidProof);
        }
        Ok(serialize_proof(proof))
    }

    /// Ends the session: the universal setup goes back into the cache under
    /// its size exponent, and the rest of the bundle is handed out.
    pub fn release(self, cache: &mut UniversalSetupCache<S>) -> (r: (P, H))
        ensures
            r.0 == self.setup_polynomials,
            r.1 == self.hints,
            final(cache)@ == (match self.key_monomial_form {
                Some(setup) => old(cache)@.insert(self.setup_power_of_two, setup),
                None => old(cache)@,
            }),
    {
        let power = self.setup_power_of_two;
        match self.key_monomial_form {
            Some(setup) => {
                cache.put_setup_struct(power, setup);
            },
            None => {},
        }
        (self.setup_polynomials, self.hints)
    }
}

} // verus!
