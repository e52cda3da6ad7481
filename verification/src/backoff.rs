//! Exponential reconnect backoff with a floor and a ceiling.
//!
//! All durations are whole milliseconds. A policy starts at its floor, and
//! each draw multiplies the wait by the growth factor until the ceiling holds
//! it. A reset returns the wait to the floor.

use vstd::prelude::*;

verus! {

/// Floor of the reconnect wait: one second.
pub const BACKOFF_MIN_MILLIS: u64 = 1_000;

/// Ceiling of the reconnect wait: twenty-four hours.
pub const BACKOFF_MAX_MILLIS: u64 = 86_400_000;

/// Each failed attempt doubles the wait.
pub const BACKOFF_FACTOR: u64 = 2;

/// The value `x` brought into the closed range from `lo` to `hi`.
pub open spec fn clamp(x: nat, lo: nat, hi: nat) -> nat {
    if x < lo {
        lo
    } else if x > hi {
        hi
    } else {
        x
    }
}

/// Why a backoff policy cannot be built from the given settings.
#[derive(Clone, Copy, Debug, PartialEq, Eq, Structural)]
pub enum ConfigError {
    /// The floor lies above the ceiling.
    InvertedBounds,
    /// The growth factor is zero, so the wait could not grow.
    ZeroFactor,
}

/// What a backoff policy is, as mathematics.
pub ghost struct BackoffModel {
    /// Smallest wait, handed out first and after every reset.
    pub min: nat,
    /// Largest wait ever handed out.
    pub max: nat,
    /// Multiplier applied by each draw.
    pub factor: nat,
    /// The wait that the next draw hands out.
    pub wait: nat,
}

impl BackoffModel {
    /// The bounds are ordered, the wait lies between them, and the factor
    /// does not shrink the wait.
    pub open spec fn wf(self) -> bool {
        &&& self.min <= self.wait <= self.max <= u64::MAX
        &&& self.factor >= 1
    }

    /// A policy that has handed out nothing yet.
    pub open spec fn fresh(min: nat, factor: nat, max: nat) -> BackoffModel {
        BackoffModel { min, max, factor, wait: min }
    }

    /// The policy after one draw: the wait times the factor, held in bounds.
    pub open spec fn advance(self) -> BackoffModel {
        BackoffModel {
            wait: clamp(self.wait * self.factor, self.min, self.max),
            ..self
        }
    }

    /// The first `n` waits that the policy hands out, in order.
    pub open spec fn waits(self, n: nat) -> Seq<nat>
        decreases n,
    {
        if n == 0 {
            Seq::empty()
        } else {
            seq![self.wait] + self.advance().waits((n - 1) as nat)
        }
    }

    /// The policy after a successful connection: the wait is the floor again.
    pub open spec fn reset(self) -> BackoffModel {
        BackoffModel { wait: self.min, ..self }
    }

    /// The policy after `n` draws.
    pub open spec fn advance_by(self, n: nat) -> BackoffModel
        decreases n,
    {
        if n == 0 {
            self
        } else {
            self.advance().advance_by((n - 1) as nat)
        }
    }

    /// The wait handed out by draw number `n`, counted from zero.
    pub open spec fn nth_wait(self, n: nat) -> nat {
        self.advance_by(n).wait
    }

    /// The ceiling has been reached: every later draw hands out the ceiling.
    pub open spec fn capped(self) -> bool {
        self.wait >= self.max
    }
}

/// A reconnect backoff policy.
#[derive(Clone, Copy, Debug)]
pub struct Backoff {
    min_millis: u64,
    max_millis: u64,
    factor: u64,
    current_millis: u64,
}

impl View for Backoff {
    type V = BackoffModel;

    closed spec fn view(&self) -> BackoffModel {
        BackoffModel {
            min: self.min_millis as nat,
            max: self.max_millis as nat,
            factor: self.factor as nat,
            wait: self.current_millis as nat,
        }
    }
}

impl Backoff {
    #[verifier::type_invariant]
    spec fn inv(self) -> bool {
        self@.wf()
    }

    /// Builds a policy that starts at `min_millis`, multiplies by `factor`
    /// and never exceeds `max_millis`.
    pub fn new(min_millis: u64, factor: u64, max_millis: u64) -> (r: Result<Backoff, ConfigError>)
        ensures
            r is Ok <==> min_millis <= max_millis && factor >= 1,
            r matches Ok(b) ==> b@ == BackoffModel::fresh(
                min_millis as nat,
                factor as nat,
                max_millis as nat,
            ) && b@.wf(),
            r matches Err(e) ==> e == (if min_millis > max_millis {
                ConfigError::InvertedBounds
            } else {
                ConfigError::ZeroFactor
            }),
    {
        if min_millis > max_millis {
            Err(ConfigError::InvertedBounds)
        } else if factor == 0 {
            Err(ConfigError::ZeroFactor)
        } else {
            Ok(Backoff { min_millis, max_millis, factor, current_millis: min_millis })
        }
    }

    /// Hands out the current wait and advances the policy. The sequence of
    /// waits never ends, so the result is always `Some`.
    pub fn next(&mut self) -> (r: Option<u64>)
        ensures
            r == Some(old(self)@.wait as u64),
            old(self)@.wf(),
            final(self)@ == old(self)@.advance(),
            final(self)@.wf(),
    {
        proof {
            use_type_invariant(&*self);
            lemma_advance_wf(self@);
        }
        let wait: u64 = self.current_millis;
        let grown: u64 = match wait.checked_mul(self.factor) {
            Some(product) => product,
            None => u64::MAX,
        };
        let held: u64 = if grown < self.min_millis {
            self.min_millis
        } else if grown > self.max_millis {
            self.max_millis
        } else {
            grown
        };
        self.current_millis = held;
        Some(wait)
    }

    /// Returns the wait to the floor.
    pub fn reset(&mut self)
        ensures
            old(self)@.wf(),
            final(self)@ == old(self)@.reset(),
            final(self)@.wf(),
    {
        proof {
            use_type_invariant(&*self);
        }
        self.current_millis = self.min_millis;
    }

    /// The wait that the next draw will hand out.
    pub fn current_millis(&self) -> (r: u64)
        ensures
            r == self@.wait,
            self@.wf(),
    {
        proof {
            use_type_invariant(self);
        }
        self.current_millis
    }

    /// The floor of the wait.
    pub fn min_millis(&self) -> (r: u64)
        ensures
            r == self@.min,
    {
        self.min_millis
    }

    /// The ceiling of the wait.
    pub fn max_millis(&self) -> (r: u64)
        ensures
            r == self@.max,
    {
        self.max_millis
    }

    /// The growth factor.
    pub fn factor(&self) -> (r: u64)
        ensures
            r == self@.factor,
    {
        self.factor
    }
}

/// The policy of the connector: from one second, doubling, up to one day.
pub fn backoff_init() -> (r: Result<Backoff, ConfigError>)
    ensures
        r matches Ok(b) && b@ == BackoffModel::fresh(
            BACKOFF_MIN_MILLIS as nat,
            BACKOFF_FACTOR as nat,
            BACKOFF_MAX_MILLIS as nat,
        ),
{
    Backoff::new(BACKOFF_MIN_MILLIS, BACKOFF_FACTOR, BACKOFF_MAX_MILLIS)
}

/// A draw keeps a well-formed policy well-formed and never shortens the wait.
pub proof fn lemma_advance_wf(m: BackoffModel)
    requires
        m.wf(),
    ensures
        m.advance().wf(),
        m.wait <= m.advance().wait <= m.max,
        m.advance().min == m.min,
        m.advance().max == m.max,
        m.advance().factor == m.factor,
{
    assert(m.wait * m.factor >= m.wait) by (nonlinear_arith)
        requires
            m.factor >= 1,
    ;
}

/// Drawing `n + 1` times is drawing `n` times and then once more.
pub proof fn lemma_advance_by_succ(m: BackoffModel, n: nat)
    ensures
        m.advance_by(n + 1) == m.advance_by(n).advance(),
    decreases n,
{
    assert(m.advance_by(n + 1) == m.advance().advance_by(n));
    if n == 0 {
        assert(m.advance().advance_by(0) == m.advance());
    } else {
        lemma_advance_by_succ(m.advance(), (n - 1) as nat);
        assert(m.advance_by(n) == m.advance().advance_by((n - 1) as nat));
    }
}

/// Any number of draws keeps a well-formed policy well-formed, and leaves
/// its bounds and its factor as they were.
pub proof fn lemma_advance_by_wf(m: BackoffModel, n: nat)
    requires
        m.wf(),
    ensures
        m.advance_by(n).wf(),
        m.advance_by(n).min == m.min,
        m.advance_by(n).max == m.max,
        m.advance_by(n).factor == m.factor,
        m.wait <= m.advance_by(n).wait,
    decreases n,
{
    if n > 0 {
        lemma_advance_wf(m);
        lemma_advance_by_wf(m.advance(), (n - 1) as nat);
    }
}

/// Each wait is the one before it times the growth factor, held between the
/// floor and the ceiling.
pub proof fn law_wait_growth(m: BackoffModel, n: nat)
    requires
        m.wf(),
    ensures
        m.nth_wait(n + 1) == clamp(m.nth_wait(n) * m.factor, m.min, m.max),
        m.min <= m.nth_wait(n) <= m.max,
        m.nth_wait(0) == m.wait,
{
    lemma_advance_by_succ(m, n);
    lemma_advance_by_wf(m, n);
}

/// The waits never shrink: a later draw hands out at least as much as an
/// earlier one.
pub proof fn law_waits_never_shrink(m: BackoffModel, j: nat, k: nat)
    requires
        m.wf(),
        j <= k,
    ensures
        m.nth_wait(j) <= m.nth_wait(k),
    decreases k - j,
{
    if j < k {
        law_waits_never_shrink(m, j, (k - 1) as nat);
        lemma_advance_by_succ(m, (k - 1) as nat);
        lemma_advance_by_wf(m, (k - 1) as nat);
        lemma_advance_wf(m.advance_by((k - 1) as nat));
    }
}

/// At the ceiling a draw changes nothing, so the wait stays at the ceiling.
pub proof fn law_ceiling_holds(m: BackoffModel, n: nat)
    requires
        m.wf(),
        m.capped(),
    ensures
        m.advance_by(n) == m,
        m.nth_wait(n) == m.max,
    decreases n,
{
    if n > 0 {
        assert(m.wait * m.factor >= m.wait) by (nonlinear_arith)
            requires
                m.factor >= 1,
        ;
        assert(m.advance() == m);
        law_ceiling_holds(m, (n - 1) as nat);
    }
}

/// A reset returns the wait to the floor, whatever was drawn before, and
/// the draws after it are those of a fresh policy.
pub proof fn law_reset_returns_to_floor(m: BackoffModel, n: nat)
    requires
        m.wf(),
    ensures
        m.advance_by(n).reset().wait == m.min,
        m.advance_by(n).reset() == BackoffModel::fresh(m.min, m.factor, m.max),
        m.advance_by(n).reset().wf(),
{
    lemma_advance_by_wf(m, n);
}

/// The list of the first `n` waits holds draw number `k` at place `k`.
pub proof fn lemma_waits_are_draws(m: BackoffModel, n: nat)
    ensures
        m.waits(n).len() == n,
        forall|k: int| 0 <= k < n ==> #[trigger] m.waits(n)[k] == m.nth_wait(k as nat),
    decreases n,
{
    if n > 0 {
        let rest = m.advance().waits((n - 1) as nat);
        lemma_waits_are_draws(m.advance(), (n - 1) as nat);
        assert forall|k: int| 0 <= k < n implies #[trigger] m.waits(n)[k] == m.nth_wait(
            k as nat,
        ) by {
            if k > 0 {
                assert(m.waits(n)[k] == rest[k - 1]);
                assert(m.nth_wait(k as nat) == m.advance().nth_wait((k - 1) as nat));
            }
        }
    }
}

} // verus!
