//! The associative memory: stored patterns, inverse temperature, and the
//! decisions of the fixed-point iteration.
//!
//! The update itself (`softmax(beta * q * X^T) * X`) is float arithmetic and is
//! computed by the caller; this module decides, from each new iterate, whether
//! the iteration has reached a bit-for-bit fixed point, must stop, or goes on.
use vstd::prelude::*;
use crate::matrix::{Matrix, MemoryError};

verus! {

/// Bit pattern of the default inverse temperature, the single-precision value 100.0.
pub const DEFAULT_BETA_BITS: u32 = 0x42c8_0000;

/// Largest number of updates a convergence may take before it is abandoned.
pub const MAX_ITERATIONS: usize = 1000;

/// A continuous Hopfield network: a matrix of stored patterns and the bit
/// pattern of its inverse temperature `beta`.
pub struct HopfieldNet {
    x: Matrix,
    beta: u32,
}

/// True when `b` is the bit pattern of a positive, finite single-precision value.
pub open spec fn valid_beta(b: u32) -> bool {
    0 < b < 0x7f80_0000
}

/// True when `b` is the bit pattern of a NaN: all exponent bits set, and a
/// non-zero fraction.
pub open spec fn is_nan_bits(b: u32) -> bool {
    b & 0x7fff_ffff > 0x7f80_0000
}

/// True when some value of `v` is a NaN.
pub open spec fn has_nan(v: Seq<u32>) -> bool {
    exists|i: int| 0 <= i < v.len() && is_nan_bits(#[trigger] v[i])
}

/// Builds a network over `x`; `beta`, a positive finite value, defaults to 100.0.
pub fn hopfield_net_init(x: Matrix, beta: Option<u32>) -> (net: HopfieldNet)
    requires
        beta matches Some(b) ==> valid_beta(b),
    ensures
        net.patterns() == x,
        net.beta_spec() == match beta {
            Some(b) => b,
            None => DEFAULT_BETA_BITS,
        },
{
    let b = match beta {
        Some(b) => b,
        None => DEFAULT_BETA_BITS,
    };
    HopfieldNet { x, beta: b }
}

/// The bit pattern of the default `beta` is that of a positive finite value.
pub proof fn lemma_default_beta_valid()
    ensures
        valid_beta(DEFAULT_BETA_BITS),
{
}

/// What one step of the iteration decided.
#[derive(Debug, Clone, Copy, PartialEq, Eq, Structural)]
pub enum Progress {
    /// The new iterate equals the previous one: the previous one is the fixed point.
    Converged,
    /// The new iterate differs and becomes the current one.
    Continue,
    /// The new iterate differs and the iteration cap is reached.
    NotConverged,
    /// The new iterate holds a NaN: the iteration has no meaningful result.
    NotANumber,
}

/// The decision for a new iterate `next` after `steps` updates from `current`.
pub open spec fn decide(current: Seq<u32>, steps: nat, next: Seq<u32>) -> Progress {
    if has_nan(next) {
        Progress::NotANumber
    } else if next == current {
        Progress::Converged
    } else if steps + 1 >= MAX_ITERATIONS {
        Progress::NotConverged
    } else {
        Progress::Continue
    }
}

/// The outcome of iterating the update `f` from `current`, with `steps`
/// updates already spent: the fixed point reached, or `None` at the cap.
pub open spec fn run(f: spec_fn(Seq<u32>) -> Seq<u32>, current: Seq<u32>, steps: nat) -> Option<Seq<u32>>
    decreases MAX_ITERATIONS - steps,
{
    match decide(current, steps, f(current)) {
        Progress::Converged => Some(current),
        Progress::NotConverged => None,
        Progress::NotANumber => None,
        Progress::Continue => if steps + 1 < MAX_ITERATIONS {
            run(f, f(current), steps + 1)
        } else {
            None
        },
    }
}

impl HopfieldNet {
    /// The stored patterns.
    pub closed spec fn patterns(&self) -> Matrix {
        self.x
    }

    /// The bit pattern of `beta`.
    pub closed spec fn beta_spec(&self) -> u32 {
        self.beta
    }

    /// Replaces the stored patterns wholesale.
    pub fn reinit(&mut self, x: Matrix)
        ensures
            final(self).patterns() == x,
            final(self).beta_spec() == old(self).beta_spec(),
    {
        self.x = x;
    }

    /// The stored patterns.
    pub fn memory(&self) -> (m: &Matrix)
        ensures
            *m == self.patterns(),
    {
        &self.x
    }

    /// The bit pattern of `beta`.
    pub fn beta(&self) -> (b: u32)
        ensures
            b == self.beta_spec(),
    {
        self.beta
    }

    /// Starts a convergence from `query`. Fails on an empty memory, and when
    /// the query's dimensionality differs from that of the stored patterns.
    pub fn start(&self, query: Vec<u32>) -> (r: Result<Convergence, MemoryError>)
        ensures
            self.patterns()@.len() == 0 <==> r == Err::<Convergence, MemoryError>(MemoryError::EmptyMemory),
            (self.patterns()@.len() > 0 && query@.len() != self.patterns().width())
                <==> r == Err::<Convergence, MemoryError>(MemoryError::DimensionMismatch),
            (self.patterns()@.len() > 0 && query@.len() == self.patterns().width()) ==> r is Ok,
            r matches Ok(c) ==> c.current_spec() == query@ && c.steps_spec() == 0,
    {
        if self.x.n_rows() == 0 {
            Err(MemoryError::EmptyMemory)
        } else if query.len() != self.x.n_cols() {
            Err(MemoryError::DimensionMismatch)
        } else {
            Ok(Convergence { current: query, steps: 0 })
        }
    }
}

/// A fixed-point iteration in progress: the current iterate and the number
/// of updates spent reaching it.
pub struct Convergence {
    current: Vec<u32>,
    steps: usize,
}

impl Convergence {
    /// The current iterate.
    pub closed spec fn current_spec(&self) -> Seq<u32> {
        self.current@
    }

    /// The number of updates spent.
    pub closed spec fn steps_spec(&self) -> nat {
        self.steps as nat
    }

    /// The current iterate.
    pub fn current(&self) -> (v: &Vec<u32>)
        ensures
            v@ == self.current_spec(),
    {
        &self.current
    }

    /// Takes `next`, the update of the current iterate, and decides. On
    /// `Continue` the current iterate becomes `next`; otherwise nothing changes.
    pub fn advance(&mut self, next: Vec<u32>) -> (p: Progress)
        ensures
            p == decide(old(self).current_spec(), old(self).steps_spec(), next@),
            p == Progress::Continue ==> final(self).current_spec() == next@
                && final(self).steps_spec() == old(self).steps_spec() + 1,
            p != Progress::Continue ==> *final(self) == *old(self),
    {
        if any_nan(&next) {
            Progress::NotANumber
        } else if same_bits(&self.current, &next) {
            Progress::Converged
        } else if self.steps >= MAX_ITERATIONS - 1 {
            Progress::NotConverged
        } else {
            self.current = next;
            self.steps = self.steps + 1;
            Progress::Continue
        }
    }
}

/// Whether some value of `v` is a NaN bit pattern.
fn any_nan(v: &Vec<u32>) -> (r: bool)
    ensures
        r == has_nan(v@),
{
    let mut i: usize = 0;
    while i < v.len()
        invariant
            i <= v@.len(),
            forall|k: int| 0 <= k < i ==> !is_nan_bits(#[trigger] v@[k]),
        decreases v@.len() - i,
    {
        if v[i] & 0x7fff_ffff > 0x7f80_0000 {
            assert(is_nan_bits(v@[i as int]));
            return true;
        }
        i = i + 1;
    }
    false
}

/// Bit-for-bit equality of two vectors.
fn same_bits(a: &Vec<u32>, b: &Vec<u32>) -> (r: bool)
    ensures
        r == (a@ == b@),
{
    if a.len() != b.len() {
        return false;
    }
    let mut i: usize = 0;
    while i < a.len()
        invariant
            a@.len() == b@.len(),
            i <= a@.len(),
            forall|k: int| 0 <= k < i ==> a@[k] == b@[k],
        decreases a@.len() - i,
    {
        if a[i] != b[i] {
            return false;
        }
        i = i + 1;
    }
    assert(a@ =~= b@);
    true
}

/// Whatever the update, a completed iteration ends on a vector that the
/// update leaves unchanged and that holds no NaN.
pub proof fn lemma_run_ends_at_fixed_point(f: spec_fn(Seq<u32>) -> Seq<u32>, q: Seq<u32>, steps: nat, r: Seq<u32>)
    requires
        run(f, q, steps) == Some(r),
    ensures
        f(r) == r,
        !has_nan(r),
    decreases MAX_ITERATIONS - steps,
{
    if !has_nan(f(q)) && f(q) != q && steps + 1 < MAX_ITERATIONS {
        lemma_run_ends_at_fixed_point(f, f(q), steps + 1, r);
    }
}

/// A query without NaN that the update leaves unchanged is returned
/// unchanged, after a single update.
pub proof fn lemma_fixed_point_returned(f: spec_fn(Seq<u32>) -> Seq<u32>, q: Seq<u32>)
    requires
        f(q) == q,
        !has_nan(q),
    ensures
        run(f, q, 0) == Some(q),
{
}

/// Converging again from the result of a convergence returns that same result.
pub proof fn lemma_converge_idempotent(f: spec_fn(Seq<u32>) -> Seq<u32>, q: Seq<u32>, r: Seq<u32>)
    requires
        run(f, q, 0) == Some(r),
    ensures
        run(f, r, 0) == Some(r),
{
    lemma_run_ends_at_fixed_point(f, q, 0, r);
}

} // verus!
