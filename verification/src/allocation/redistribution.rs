//! Saturation redistribution.

use vstd::prelude::*;

use super::effectors::{limits, validate, ConfigError};
use crate::contract::{BoundedList, EffectorConfig, ForceDemand};
use crate::scalar::Scalar;

verus! {

/// One tick's allocator output. `values` is parallel to the effector table;
/// `achieved` is the honest realized tau, not the demand that was asked for.
#[derive(Copy, Clone, Debug, PartialEq)]
pub struct Allocation {
    pub values: BoundedList<Scalar, 8>,
    pub achieved: ForceDemand,
}

/// Why a table is refused, if it is: too long, or else what is wrong with its
/// first unusable entry.
pub open spec fn refused_table(effectors: Seq<EffectorConfig>) -> Option<ConfigError> {
    if effectors.len() > 8 {
        Some(ConfigError::TooManyEffectors)
    } else {
        first_invalid(effectors)
    }
}

pub open spec fn first_invalid(effectors: Seq<EffectorConfig>) -> Option<ConfigError>
    decreases effectors.len(),
{
    if effectors.len() == 0 {
        None
    } else if super::effectors::invalid(effectors[0].kind) is Some {
        super::effectors::invalid(effectors[0].kind)
    } else {
        first_invalid(effectors.skip(1))
    }
}

/// Every entry of a table is usable.
pub open spec fn usable(effectors: Seq<EffectorConfig>) -> bool {
    forall|i: int|
        0 <= i < effectors.len() ==> super::effectors::invalid(
            (#[trigger] effectors[i]).kind,
        ) is None
}

/// What an allocation tick comes to before anything is solved.
pub enum Plan {
    /// Nothing to solve: the answer is all zeros.
    Settled(Allocation),
    /// The host has to solve.
    Solve(Redistribution),
}

/// What a solve comes to.
#[derive(Copy, Clone, Debug, PartialEq)]
pub enum Verdict {
    /// Every free effector is within its limits; the solve stands.
    Accepted,
    /// This effector is held at its bound from now on; its contribution moves
    /// to the demand residual and the rest is solved again.
    Clamped { index: usize, bound: Scalar },
}

/// Holds a validated effector table.
#[derive(Copy, Clone, Debug)]
pub struct Allocator {
    effectors: BoundedList<EffectorConfig, 8>,
}

impl View for Allocator {
    type V = Seq<EffectorConfig>;

    closed spec fn view(&self) -> Seq<EffectorConfig> {
        self.effectors@
    }
}

pub open spec fn finite_demand(tau: ForceDemand) -> bool {
    tau.surge_n.finite() && tau.sway_n.finite() && tau.yaw_nm.finite()
}

fn finite_tau(tau: &ForceDemand) -> (b: bool)
    ensures
        b == finite_demand(*tau),
{
    tau.surge_n.is_finite() && tau.sway_n.is_finite() && tau.yaw_nm.is_finite()
}

/// Whether an allocation is the fail-safe one for `n` effectors: every output
/// and the achieved tau zero.
pub open spec fn all_zero(a: Allocation, n: nat) -> bool {
    &&& a.values@.len() == n
    &&& forall|i: int| 0 <= i < n ==> (#[trigger] a.values@[i]).bits == 0
    &&& a.achieved.is_zero()
}

fn zero_values(n: usize) -> (out: BoundedList<Scalar, 8>)
    requires
        n <= 8,
    ensures
        out@.len() == n,
        forall|i: int| 0 <= i < n ==> (#[trigger] out@[i]).bits == 0,
{
    let mut out: BoundedList<Scalar, 8> = BoundedList::new();
    let mut i: usize = 0;
    while i < n
        invariant
            i <= n <= 8,
            out@.len() == i,
            forall|k: int| 0 <= k < i ==> (#[trigger] out@[k]).bits == 0,
        decreases n - i,
    {
        let _ = out.push(Scalar::zero());
        i = i + 1;
    }
    out
}

impl Allocator {
    #[verifier::type_invariant]
    spec fn wf(self) -> bool {
        usable(self.effectors@)
    }

    pub fn new(effectors: &[EffectorConfig]) -> (r: Result<Allocator, ConfigError>)
        ensures
            match r {
                Ok(a) => refused_table(effectors@) is None && a@ == effectors@ && usable(a@),
                Err(e) => refused_table(effectors@) == Some(e),
            },
    {
        let list: BoundedList<EffectorConfig, 8> = match BoundedList::from_slice(effectors) {
            Ok(list) => list,
            Err(_) => {
                return Err(ConfigError::TooManyEffectors);
            },
        };
        let table = list.as_slice();
        let mut i: usize = 0;
        proof {
            assert(effectors@.skip(0) == effectors@);
        }
        while i < table.len()
            invariant
                table@ == effectors@,
                effectors@.len() <= 8,
                i <= table@.len(),
                forall|k: int|
                    0 <= k < i ==> super::effectors::invalid(
                        (#[trigger] effectors@[k]).kind,
                    ) is None,
                first_invalid(effectors@) == first_invalid(effectors@.skip(i as int)),
            decreases table.len() - i,
        {
            proof {
                assert(effectors@.skip(i as int)[0] == effectors@[i as int]);
                assert(effectors@.skip(i as int).skip(1) == effectors@.skip(i + 1));
            }
            match validate(&table[i].kind) {
                Ok(_) => {},
                Err(e) => {
                    return Err(e);
                },
            }
            i = i + 1;
        }
        Ok(Allocator { effectors: list })
    }

    /// Opens an allocation tick. A non-finite `tau` or `surge_mps` fails safe
    /// to all-zero output rather than propagating NaN onto the actuators; an
    /// empty table has nothing to solve.
    pub fn allocate(&self, tau: ForceDemand, surge_mps: Scalar) -> (plan: Plan)
        ensures
            match plan {
                Plan::Settled(a) => {
                    &&& !finite_demand(tau) || !surge_mps.finite() || self@.len() == 0
                    &&& all_zero(a, self@.len())
                    &&& a.values@.len() == self@.len()
                    &&& forall|i: int|
                        0 <= i < a.values@.len() ==> (#[trigger] a.values@[i]).bits == 0
                    &&& a.achieved.surge_n.bits == 0 && a.achieved.sway_n.bits == 0
                        && a.achieved.yaw_nm.bits == 0
                },
                Plan::Solve(r) => {
                    &&& finite_demand(tau) && surge_mps.finite() && self@.len() > 0
                    &&& r@ == fresh(self@)
                    &&& r@.effectors == self@
                    &&& !r@.settled
                    &&& forall|i: int|
                        0 <= i < self@.len() ==> #[trigger] r@.free[i] && r@.values[i].bits == 0
                },
            },
            plan is Solve <==> tau.surge_n.finite() && tau.sway_n.finite() && tau.yaw_nm.finite()
                && surge_mps.finite() && self@.len() > 0,
    {
        proof {
            use_type_invariant(self);
        }
        let n: usize = self.effectors.len();
        if !finite_tau(&tau) || !surge_mps.is_finite() || n == 0 {
            return Plan::Settled(
                Allocation { values: zero_values(n), achieved: ForceDemand::zero() },
            );
        }
        let r = Redistribution {
            effectors: self.effectors,
            free: [true; 8],
            values: [Scalar { bits: 0 }; 8],
            settled: false,
        };
        proof {
            let f = fresh(self@);
            assert(r@.free == f.free);
            assert(r@.values == f.values);
        }
        Plan::Solve(r)
    }

    pub fn effectors(&self) -> (s: &[EffectorConfig])
        ensures
            s@ == self@,
    {
        self.effectors.as_slice()
    }
}

/// What a redistribution in progress holds: the table, which effectors are
/// still free, the outputs so far, and whether a solve has been accepted.
pub ghost struct Spread {
    pub effectors: Seq<EffectorConfig>,
    pub free: Seq<bool>,
    pub values: Seq<Scalar>,
    pub settled: bool,
}

/// Where every redistribution starts: all effectors free, all outputs zero.
pub open spec fn fresh(effectors: Seq<EffectorConfig>) -> Spread {
    Spread {
        effectors,
        free: Seq::new(effectors.len(), |i: int| true),
        values: Seq::new(effectors.len(), |i: int| Scalar { bits: 0 }),
        settled: false,
    }
}

/// Whether a solved value lies beyond its effector's limits.
pub open spec fn violates(s: Spread, solved: Seq<Scalar>, i: int) -> bool {
    &&& 0 <= i < s.effectors.len()
    &&& s.free[i]
    &&& super::effectors::upper_limit(s.effectors[i].kind).less(solved[i]) || solved[i].less(
        super::effectors::lower_limit(s.effectors[i].kind),
    )
}

/// The bound a violator is held at.
pub open spec fn bound_of(s: Spread, solved: Seq<Scalar>, i: int) -> Scalar {
    if super::effectors::upper_limit(s.effectors[i].kind).less(solved[i]) {
        super::effectors::upper_limit(s.effectors[i].kind)
    } else {
        super::effectors::lower_limit(s.effectors[i].kind)
    }
}

/// The violator with the largest relative excess among the first `n` entries,
/// the earliest where several are equally bad.
pub open spec fn worst(s: Spread, solved: Seq<Scalar>, excess: Seq<Scalar>, n: int) -> Option<int>
    decreases n,
{
    if n <= 0 {
        None
    } else {
        let before = worst(s, solved, excess, n - 1);
        if violates(s, solved, n - 1) && (before is None || excess[before->0].less(
            excess[n - 1],
        )) {
            Some(n - 1)
        } else {
            before
        }
    }
}

/// The redistribution after a solve.
pub open spec fn after_solve(s: Spread, solved: Seq<Scalar>, excess: Seq<Scalar>) -> Spread {
    match worst(s, solved, excess, s.effectors.len() as int) {
        Some(w) => Spread {
            free: s.free.update(w, false),
            values: s.values.update(w, bound_of(s, solved, w)),
            ..s
        },
        None => Spread {
            values: Seq::new(
                s.effectors.len(),
                |i: int|
                    if s.free[i] {
                        solved[i]
                    } else {
                        s.values[i]
                    },
            ),
            settled: true,
            ..s
        },
    }
}

/// How many effectors are still free.
pub open spec fn free_count(free: Seq<bool>) -> nat
    decreases free.len(),
{
    if free.len() == 0 {
        0
    } else {
        free_count(free.drop_last()) + (if free.last() {
            1nat
        } else {
            0
        })
    }
}

/// Whether an output is within its effector's limits; NaN counts as within,
/// it violates no limit.
pub open spec fn within_limits(kind: crate::contract::EffectorKind, v: Scalar) -> bool {
    v.nan() || (super::effectors::lower_limit(kind).units() <= v.units()
        <= super::effectors::upper_limit(kind).units())
}

/// What holds of every redistribution: the table is usable and every output
/// is within its effector's limits.
pub open spec fn sound(s: Spread) -> bool {
    &&& usable(s.effectors)
    &&& s.effectors.len() <= 8
    &&& s.free.len() == s.effectors.len()
    &&& s.values.len() == s.effectors.len()
    &&& forall|i: int|
        0 <= i < s.effectors.len() ==> within_limits(
            s.effectors[i].kind,
            #[trigger] s.values[i],
        )
}

/// A redistribution in progress.
#[derive(Copy, Clone, Debug)]
pub struct Redistribution {
    effectors: BoundedList<EffectorConfig, 8>,
    free: [bool; 8],
    values: [Scalar; 8],
    settled: bool,
}

impl View for Redistribution {
    type V = Spread;

    closed spec fn view(&self) -> Spread {
        Spread {
            effectors: self.effectors@,
            free: self.free@.take(self.effectors@.len() as int),
            values: self.values@.take(self.effectors@.len() as int),
            settled: self.settled,
        }
    }
}

impl Redistribution {
    #[verifier::type_invariant]
    spec fn wf(self) -> bool {
        sound(self@)
    }

    /// Whether a solve has been accepted.
    pub fn is_settled(&self) -> (b: bool)
        ensures
            b == self@.settled,
    {
        self.settled
    }

    /// Whether an effector still takes part in the solve.
    pub fn is_free(&self, index: usize) -> (b: bool)
        ensures
            b == (index < self@.effectors.len() && self@.free[index as int]),
    {
        let n: usize = self.effectors.len();
        index < n && self.free[index]
    }

    /// The free effector whose solved value clears its limit by the largest
    /// relative margin, if any does.
    fn worst_violator(&self, solved: &[Scalar; 8], excess: &[Scalar; 8]) -> (w: Option<
        (usize, Scalar),
    >)
        ensures
            match w {
                Some(pair) => worst(self@, solved@, excess@, self@.effectors.len() as int) == Some(
                    pair.0 as int,
                ) && pair.0 < self@.effectors.len() && violates(self@, solved@, pair.0 as int)
                    && pair.1 == bound_of(self@, solved@, pair.0 as int),
                None => worst(self@, solved@, excess@, self@.effectors.len() as int) is None,
            },
    {
        let table = self.effectors.as_slice();
        let mut found: Option<(usize, Scalar)> = None;
        let mut i: usize = 0;
        while i < table.len()
            invariant
                table@ == self@.effectors,
                table@.len() <= 8,
                i <= table@.len(),
                match found {
                    Some(pair) => worst(self@, solved@, excess@, i as int) == Some(pair.0 as int)
                        && pair.0 < i && violates(self@, solved@, pair.0 as int) && pair.1
                        == bound_of(self@, solved@, pair.0 as int),
                    None => worst(self@, solved@, excess@, i as int) is None,
                },
            decreases table.len() - i,
        {
            if self.free[i] {
                let (lo, hi) = limits(&table[i].kind);
                let v: Scalar = solved[i];
                let bound: Option<Scalar> = if v.gt(hi) {
                    Some(hi)
                } else if v.lt(lo) {
                    Some(lo)
                } else {
                    None
                };
                if let Some(bound) = bound {
                    let worse = match found {
                        None => true,
                        Some((k, _)) => excess[i].gt(excess[k]),
                    };
                    if worse {
                        found = Some((i, bound));
                    }
                }
            }
            i = i + 1;
        }
        found
    }

    /// Takes a solve: `solved` are the free effectors' values and `excess` how
    /// far each one past a limit exceeds it, relative to that limit. Either
    /// the solve stands, or exactly one effector leaves the free set.
    pub fn solve(&mut self, solved: &[Scalar; 8], excess: &[Scalar; 8]) -> (v: Verdict)
        requires
            !old(self)@.settled,
        ensures
            final(self)@ == after_solve(old(self)@, solved@, excess@),
            match worst(old(self)@, solved@, excess@, old(self)@.effectors.len() as int) {
                Some(w) => v == (Verdict::Clamped {
                    index: w as usize,
                    bound: bound_of(old(self)@, solved@, w),
                }),
                None => v == Verdict::Accepted,
            },
    {
        proof {
            use_type_invariant(&*self);
        }
        let ghost s = self@;
        let ghost n = s.effectors.len() as int;
        let ghost goal = after_solve(s, solved@, excess@);
        proof {
            outputs_stay_within_limits(s, solved@, excess@);
        }
        match self.worst_violator(solved, excess) {
            Some((index, bound)) => {
                let mut free: [bool; 8] = self.free;
                let mut values: [Scalar; 8] = self.values;
                free[index] = false;
                values[index] = bound;
                proof {
                    assert(free@.take(n) == goal.free);
                    assert(values@.take(n) == goal.values);
                }
                *self =
                Redistribution {
                    effectors: self.effectors,
                    free,
                    values,
                    settled: self.settled,
                };
                Verdict::Clamped { index, bound }
            },
            None => {
                let values: [Scalar; 8] = self.accepted(solved);
                proof {
                    assert(values@.take(n) == goal.values);
                }
                *self =
                Redistribution {
                    effectors: self.effectors,
                    free: self.free,
                    values,
                    settled: true,
                };
                Verdict::Accepted
            },
        }
    }

    /// The outputs with every free effector at its solved value.
    fn accepted(&self, solved: &[Scalar; 8]) -> (values: [Scalar; 8])
        ensures
            forall|k: int|
                0 <= k < self@.effectors.len() ==> #[trigger] values@[k] == (if self@.free[k] {
                    solved@[k]
                } else {
                    self@.values[k]
                }),
    {
        let mut values: [Scalar; 8] = self.values;
        let count: usize = self.effectors.len();
        let mut i: usize = 0;
        while i < count
            invariant
                count == self@.effectors.len(),
                count <= 8,
                i <= count,
                forall|k: int|
                    0 <= k < i ==> #[trigger] values@[k] == (if self@.free[k] {
                        solved@[k]
                    } else {
                        self@.values[k]
                    }),
                forall|k: int| i <= k < count ==> #[trigger] values@[k] == self@.values[k],
            decreases count - i,
        {
            if self.free[i] {
                values[i] = solved[i];
            }
            i = i + 1;
        }
        values
    }

    /// The tick's output, given the tau that the host finds these values to
    /// achieve.
    pub fn finish(&self, achieved: ForceDemand) -> (a: Allocation)
        requires
            self@.settled,
        ensures
            a.values@ == self@.values,
            a.values@.len() == self@.effectors.len(),
            forall|i: int|
                0 <= i < a.values@.len() ==> within_limits(
                    self@.effectors[i].kind,
                    #[trigger] a.values@[i],
                ),
            a.achieved == achieved,
    {
        proof {
            use_type_invariant(self);
        }
        Allocation { values: self.outputs(), achieved }
    }

    /// The outputs so far, parallel to the effector table.
    pub fn outputs(&self) -> (values: BoundedList<Scalar, 8>)
        ensures
            values@ == self@.values,
    {
        proof {
            use_type_invariant(self);
        }
        let n: usize = self.effectors.len();
        match BoundedList::from_array(self.values, n) {
            Ok(list) => list,
            Err(_) => BoundedList::new(),
        }
    }
}

proof fn lemma_none_violates(s: Spread, solved: Seq<Scalar>, excess: Seq<Scalar>, n: int)
    requires
        worst(s, solved, excess, n) is None,
    ensures
        forall|k: int| 0 <= k < n ==> !#[trigger] violates(s, solved, k),
    decreases n,
{
    if n > 0 {
        lemma_none_violates(s, solved, excess, n - 1);
    }
}

/// The worst violator violates, and no violator exceeds its limit by a larger
/// relative margin; there is none exactly when nothing violates.
pub proof fn worst_is_worst(s: Spread, solved: Seq<Scalar>, excess: Seq<Scalar>, n: int, k: int)
    requires
        0 <= k < n,
        violates(s, solved, k),
    ensures
        worst(s, solved, excess, n) is Some,
        0 <= worst(s, solved, excess, n)->0 < n,
        violates(s, solved, worst(s, solved, excess, n)->0),
        !excess[k].nan() && (forall|i: int|
            0 <= i < n && violates(s, solved, i) ==> !(#[trigger] excess[i]).nan())
            ==> !excess[worst(s, solved, excess, n)->0].less(excess[k]),
    decreases n,
{
    if k == n - 1 {
        if worst(s, solved, excess, n - 1) is Some {
            lemma_worst_in_range(s, solved, excess, n - 1);
        }
    } else {
        worst_is_worst(s, solved, excess, n - 1, k);
    }
}

proof fn lemma_worst_in_range(s: Spread, solved: Seq<Scalar>, excess: Seq<Scalar>, n: int)
    requires
        worst(s, solved, excess, n) is Some,
    ensures
        0 <= worst(s, solved, excess, n)->0 < n,
        violates(s, solved, worst(s, solved, excess, n)->0),
    decreases n,
{
    if n > 0 && worst(s, solved, excess, n - 1) is Some {
        lemma_worst_in_range(s, solved, excess, n - 1);
    }
}

proof fn lemma_free_count_update(free: Seq<bool>, w: int)
    requires
        0 <= w < free.len(),
        free[w],
    ensures
        free_count(free) == free_count(free.update(w, false)) + 1,
    decreases free.len(),
{
    let cleared = free.update(w, false);
    if w == free.len() - 1 {
        assert(cleared.drop_last() == free.drop_last());
    } else {
        lemma_free_count_update(free.drop_last(), w);
        assert(cleared.drop_last() == free.drop_last().update(w, false));
    }
}

proof fn lemma_fresh_count(effectors: Seq<EffectorConfig>)
    ensures
        free_count(fresh(effectors).free) == effectors.len(),
    decreases effectors.len(),
{
    if effectors.len() > 0 {
        lemma_fresh_count(effectors.drop_last());
        assert(fresh(effectors).free.drop_last() == fresh(effectors.drop_last()).free);
    }
}

proof fn lemma_fresh_is_sound(effectors: Seq<EffectorConfig>)
    requires
        usable(effectors),
        effectors.len() <= 8,
    ensures
        sound(fresh(effectors)),
{
    let s = fresh(effectors);
    assert forall|i: int| 0 <= i < effectors.len() implies within_limits(
        effectors[i].kind,
        #[trigger] s.values[i],
    ) by {
        super::effectors::limits_enclose_zero(effectors[i].kind);
    }
}

/// Every solve either settles the redistribution or takes exactly one effector
/// out of the free set for good, and never moves one that was taken out.
pub proof fn every_solve_makes_progress(s: Spread, solved: Seq<Scalar>, excess: Seq<Scalar>)
    requires
        sound(s),
        !s.settled,
    ensures
        ({
            let next = after_solve(s, solved, excess);
            &&& next.settled || free_count(next.free) + 1 == free_count(s.free)
            &&& next.effectors == s.effectors
            &&& forall|i: int|
                0 <= i < s.effectors.len() && !s.free[i] ==> !next.free[i]
                    && #[trigger] next.values[i] == s.values[i]
        }),
{
    let n = s.effectors.len() as int;
    if worst(s, solved, excess, n) is Some {
        lemma_worst_in_range(s, solved, excess, n);
        lemma_free_count_update(s.free, worst(s, solved, excess, n)->0);
    }
}

/// The outputs stay within every effector's limits throughout, NaN aside,
/// whatever the host's solver returns.
pub proof fn outputs_stay_within_limits(s: Spread, solved: Seq<Scalar>, excess: Seq<Scalar>)
    requires
        sound(s),
        !s.settled,
        solved.len() == 8,
        excess.len() == 8,
    ensures
        sound(after_solve(s, solved, excess)),
{
    let n = s.effectors.len() as int;
    let next = after_solve(s, solved, excess);
    if worst(s, solved, excess, n) is Some {
        let w = worst(s, solved, excess, n)->0;
        lemma_worst_in_range(s, solved, excess, n);
        super::effectors::limits_enclose_zero(s.effectors[w].kind);
        assert forall|i: int| 0 <= i < n implies within_limits(
            s.effectors[i].kind,
            #[trigger] next.values[i],
        ) by {
            if i != w {
                assert(next.values[i] == s.values[i]);
            }
        }
    } else {
        lemma_none_violates(s, solved, excess, n);
        assert forall|i: int| 0 <= i < n implies within_limits(
            s.effectors[i].kind,
            #[trigger] next.values[i],
        ) by {
            assert(!violates(s, solved, i));
            super::effectors::limits_enclose_zero(s.effectors[i].kind);
            assert(within_limits(s.effectors[i].kind, s.values[i]));
        }
    }
}

/// The redistribution after a run of solves; it stops when one is accepted.
pub open spec fn after_solves(s: Spread, solves: Seq<(Seq<Scalar>, Seq<Scalar>)>) -> Spread
    decreases solves.len(),
{
    if s.settled || solves.len() == 0 {
        s
    } else {
        after_solves(after_solve(s, solves[0].0, solves[0].1), solves.skip(1))
    }
}

proof fn lemma_settles(s: Spread, solves: Seq<(Seq<Scalar>, Seq<Scalar>)>)
    requires
        sound(s),
        solves.len() > free_count(s.free),
        forall|i: int|
            0 <= i < solves.len() ==> (#[trigger] solves[i]).0.len() == 8 && solves[i].1.len()
                == 8,
    ensures
        after_solves(s, solves).settled,
        sound(after_solves(s, solves)),
    decreases solves.len(),
{
    if !s.settled {
        every_solve_makes_progress(s, solves[0].0, solves[0].1);
        outputs_stay_within_limits(s, solves[0].0, solves[0].1);
        let next = after_solve(s, solves[0].0, solves[0].1);
        let rest = solves.skip(1);
        assert forall|i: int| 0 <= i < rest.len() implies (#[trigger] rest[i]).0.len() == 8
            && rest[i].1.len() == 8 by {
            assert(rest[i] == solves[i + 1]);
        }
        if next.settled {
            assert(after_solves(next, rest) == next);
        } else {
            lemma_settles(next, rest);
        }
    }
}

/// None of the values is NaN.
pub open spec fn no_nan(values: Seq<Scalar>) -> bool {
    forall|i: int| 0 <= i < values.len() ==> !(#[trigger] values[i]).nan()
}

proof fn lemma_no_nan(s: Spread, solves: Seq<(Seq<Scalar>, Seq<Scalar>)>)
    requires
        sound(s),
        no_nan(s.values),
        forall|i: int|
            0 <= i < solves.len() ==> (#[trigger] solves[i]).0.len() == 8 && solves[i].1.len()
                == 8 && no_nan(solves[i].0),
    ensures
        no_nan(after_solves(s, solves).values),
        after_solves(s, solves).effectors == s.effectors,
    decreases solves.len(),
{
    if !s.settled && solves.len() > 0 {
        let solved = solves[0].0;
        let excess = solves[0].1;
        let next = after_solve(s, solved, excess);
        let rest = solves.skip(1);
        let n = s.effectors.len() as int;
        outputs_stay_within_limits(s, solved, excess);
        if worst(s, solved, excess, n) is Some {
            lemma_worst_in_range(s, solved, excess, n);
        }
        assert forall|i: int| 0 <= i < next.values.len() implies !(
        #[trigger] next.values[i]).nan() by {
            assert(!s.values[i].nan());
            assert(!solved[i].nan());
        }
        assert forall|i: int| 0 <= i < rest.len() implies (#[trigger] rest[i]).0.len() == 8
            && rest[i].1.len() == 8 && no_nan(rest[i].0) by {
            assert(rest[i] == solves[i + 1]);
        }
        lemma_no_nan(next, rest);
    }
}

/// As long as the solver returns no NaN, every output of a settled table lies
/// between its effector's limits, one output for each effector.
pub proof fn settled_outputs_lie_between_the_limits(
    effectors: Seq<EffectorConfig>,
    solves: Seq<(Seq<Scalar>, Seq<Scalar>)>,
)
    requires
        usable(effectors),
        effectors.len() <= 8,
        solves.len() >= effectors.len() + 1,
        forall|i: int|
            0 <= i < solves.len() ==> (#[trigger] solves[i]).0.len() == 8 && solves[i].1.len()
                == 8 && no_nan(solves[i].0),
    ensures
        ({
            let values = after_solves(fresh(effectors), solves).values;
            &&& values.len() == effectors.len()
            &&& forall|i: int|
                0 <= i < effectors.len() ==> super::effectors::lower_limit(
                    effectors[i].kind,
                ).at_most(#[trigger] values[i]) && values[i].at_most(
                    super::effectors::upper_limit(effectors[i].kind),
                )
        }),
{
    settles_within_one_solve_more_than_effectors(effectors, solves);
    let s = fresh(effectors);
    lemma_fresh_is_sound(effectors);
    lemma_no_nan(s, solves);
    let values = after_solves(s, solves).values;
    assert forall|i: int| 0 <= i < effectors.len() implies super::effectors::lower_limit(
        effectors[i].kind,
    ).at_most(#[trigger] values[i]) && values[i].at_most(
        super::effectors::upper_limit(effectors[i].kind),
    ) by {
        super::effectors::limits_enclose_zero(effectors[i].kind);
        assert(!values[i].nan());
    }
}

/// A table of n usable effectors settles after at most n + 1 solves, whatever
/// the solver returns, with every output within its limits, NaN aside.
pub proof fn settles_within_one_solve_more_than_effectors(
    effectors: Seq<EffectorConfig>,
    solves: Seq<(Seq<Scalar>, Seq<Scalar>)>,
)
    requires
        usable(effectors),
        effectors.len() <= 8,
        solves.len() >= effectors.len() + 1,
        forall|i: int|
            0 <= i < solves.len() ==> (#[trigger] solves[i]).0.len() == 8 && solves[i].1.len()
                == 8,
    ensures
        after_solves(fresh(effectors), solves).settled,
        sound(after_solves(fresh(effectors), solves)),
{
    let s = fresh(effectors);
    lemma_fresh_count(effectors);
    lemma_fresh_is_sound(effectors);
    lemma_settles(s, solves);
}

/// Whether a value lies beyond what an effector's own fields allow: above the
/// forward limit or below the reverse one for a thruster, past the largest
/// angle either way for a rudder. NaN lies beyond nothing.
pub open spec fn beyond_fields(kind: crate::contract::EffectorKind, v: Scalar) -> bool {
    match kind {
        crate::contract::EffectorKind::FixedThruster {
            max_thrust_fwd_n,
            max_thrust_rev_n,
            ..
        } => !v.nan() && (v.units() > max_thrust_fwd_n.units() || v.units()
            < -max_thrust_rev_n.units()),
        crate::contract::EffectorKind::Rudder { max_angle_rad, .. } => !v.nan() && (v.units()
            > max_angle_rad.units() || v.units() < -max_angle_rad.units()),
    }
}

proof fn lemma_violates_by_fields(s: Spread, solved: Seq<Scalar>, i: int)
    requires
        usable(s.effectors),
        0 <= i < s.effectors.len(),
    ensures
        violates(s, solved, i) <==> s.free[i] && beyond_fields(s.effectors[i].kind, solved[i]),
{
    super::effectors::limits_are_the_configured_ones(s.effectors[i].kind);
    super::effectors::limits_enclose_zero(s.effectors[i].kind);
    assert(super::effectors::invalid(s.effectors[i].kind) is None);
}

/// A solve whose free thrusts lie between minus the reverse limit and the
/// forward limit, and whose free rudder angles lie within the largest angle,
/// is accepted, and every free output is the solved one, unchanged.
pub proof fn solve_within_the_fields_is_accepted(
    s: Spread,
    solved: Seq<Scalar>,
    excess: Seq<Scalar>,
)
    requires
        sound(s),
        forall|i: int|
            0 <= i < s.effectors.len() && s.free[i] ==> match (#[trigger] s.effectors[i]).kind {
                crate::contract::EffectorKind::FixedThruster {
                    max_thrust_fwd_n,
                    max_thrust_rev_n,
                    ..
                } => -max_thrust_rev_n.units() <= solved[i].units() <= max_thrust_fwd_n.units(),
                crate::contract::EffectorKind::Rudder { max_angle_rad, .. } =>
                    -max_angle_rad.units() <= solved[i].units() <= max_angle_rad.units(),
            },
    ensures
        ({
            let next = after_solve(s, solved, excess);
            &&& next.settled
            &&& next.free == s.free
            &&& next.effectors == s.effectors
            &&& next.values.len() == s.effectors.len()
            &&& forall|i: int|
                0 <= i < s.effectors.len() && s.free[i] ==> #[trigger] next.values[i] == solved[i]
            &&& forall|i: int|
                0 <= i < s.effectors.len() && !s.free[i] ==> #[trigger] next.values[i]
                    == s.values[i]
        }),
{
    let n = s.effectors.len() as int;
    if worst(s, solved, excess, n) is Some {
        let w = worst(s, solved, excess, n)->0;
        lemma_worst_in_range(s, solved, excess, n);
        lemma_violates_by_fields(s, solved, w);
        assert(s.effectors[w].kind == s.effectors[w].kind);
    }
}

proof fn lemma_earlier_is_less_bad(
    s: Spread,
    solved: Seq<Scalar>,
    excess: Seq<Scalar>,
    n: int,
    k: int,
)
    requires
        worst(s, solved, excess, n) is Some,
        0 <= k < n,
        violates(s, solved, k),
        forall|i: int| 0 <= i < n ==> !(#[trigger] excess[i]).nan(),
    ensures
        excess[k].units() <= excess[worst(s, solved, excess, n)->0].units(),
        k < worst(s, solved, excess, n)->0 ==> excess[k].units() < excess[worst(
            s,
            solved,
            excess,
            n,
        )->0].units(),
    decreases n,
{
    if k == n - 1 {
        if worst(s, solved, excess, n - 1) is Some {
            lemma_worst_in_range(s, solved, excess, n - 1);
            assert(!excess[worst(s, solved, excess, n - 1)->0].nan());
            assert(!excess[n - 1].nan());
        }
    } else {
        worst_is_worst(s, solved, excess, n - 1, k);
        lemma_earlier_is_less_bad(s, solved, excess, n - 1, k);
        assert(!excess[worst(s, solved, excess, n - 1)->0].nan());
        assert(!excess[n - 1].nan());
    }
}

/// When some free effector `k` is solved beyond its fields, exactly one such
/// effector leaves the free set: one whose relative excess none of the others
/// tops, the earliest of those. It is held at the limit it passed, and every
/// other output stays as it was.
pub proof fn worst_violator_is_held_at_the_limit_it_passed(
    s: Spread,
    solved: Seq<Scalar>,
    excess: Seq<Scalar>,
    k: int,
)
    requires
        sound(s),
        !s.settled,
        0 <= k < s.effectors.len(),
        s.free[k],
        beyond_fields(s.effectors[k].kind, solved[k]),
        forall|i: int| 0 <= i < s.effectors.len() ==> !(#[trigger] excess[i]).nan(),
    ensures
        ({
            let next = after_solve(s, solved, excess);
            let w = worst(s, solved, excess, s.effectors.len() as int)->0;
            &&& !next.settled
            &&& 0 <= w < s.effectors.len() && s.free[w] && !next.free[w]
            &&& forall|i: int|
                0 <= i < s.effectors.len() && i != w ==> #[trigger] next.values[i] == s.values[i]
                    && next.free[i] == s.free[i]
            &&& excess[k].units() <= excess[w].units()
            &&& k < w ==> excess[k].units() < excess[w].units()
            &&& s.effectors[w].kind matches crate::contract::EffectorKind::FixedThruster {
                max_thrust_fwd_n,
                max_thrust_rev_n,
                ..
            } ==> {
                &&& solved[w].units() > max_thrust_fwd_n.units() ==> next.values[w].units()
                    == max_thrust_fwd_n.units()
                &&& solved[w].units() < -max_thrust_rev_n.units() ==> next.values[w].units()
                    == -max_thrust_rev_n.units()
                &&& solved[w].units() > max_thrust_fwd_n.units() || solved[w].units()
                    < -max_thrust_rev_n.units()
            }
            &&& s.effectors[w].kind matches crate::contract::EffectorKind::Rudder {
                max_angle_rad,
                ..
            } ==> {
                &&& solved[w].units() > max_angle_rad.units() ==> next.values[w].units()
                    == max_angle_rad.units()
                &&& solved[w].units() < -max_angle_rad.units() ==> next.values[w].units()
                    == -max_angle_rad.units()
                &&& solved[w].units() > max_angle_rad.units() || solved[w].units()
                    < -max_angle_rad.units()
            }
        }),
{
    let n = s.effectors.len() as int;
    lemma_violates_by_fields(s, solved, k);
    worst_is_worst(s, solved, excess, n, k);
    let w = worst(s, solved, excess, n)->0;
    lemma_violates_by_fields(s, solved, w);
    lemma_earlier_is_less_bad(s, solved, excess, n, k);
    super::effectors::limits_are_the_configured_ones(s.effectors[w].kind);
    super::effectors::limits_enclose_zero(s.effectors[w].kind);
}

/// Every output of a redistribution is NaN or within what its effector's own
/// fields allow.
pub proof fn sound_outputs_are_within_the_fields(s: Spread, i: int)
    requires
        sound(s),
        0 <= i < s.effectors.len(),
    ensures
        !beyond_fields(s.effectors[i].kind, s.values[i]),
{
    super::effectors::limits_are_the_configured_ones(s.effectors[i].kind);
    assert(within_limits(s.effectors[i].kind, s.values[i]));
}

/// A table is refused exactly when it has more than eight entries or an
/// unusable one; the reason is then its length, or what is wrong with the
/// first unusable entry.
pub proof fn table_is_refused_for_its_first_fault(effectors: Seq<EffectorConfig>, i: int)
    ensures
        effectors.len() > 8 ==> refused_table(effectors) == Some(ConfigError::TooManyEffectors),
        effectors.len() <= 8 && (forall|k: int|
            0 <= k < effectors.len() ==> super::effectors::invalid(
                (#[trigger] effectors[k]).kind,
            ) is None) ==> refused_table(effectors) is None,
        effectors.len() <= 8 && 0 <= i < effectors.len() && super::effectors::invalid(
            effectors[i].kind,
        ) is Some && (forall|k: int|
            0 <= k < i ==> super::effectors::invalid((#[trigger] effectors[k]).kind) is None)
            ==> refused_table(effectors) == super::effectors::invalid(effectors[i].kind),
{
    lemma_first_invalid(effectors, i);
}

proof fn lemma_first_invalid(effectors: Seq<EffectorConfig>, i: int)
    ensures
        (forall|k: int|
            0 <= k < effectors.len() ==> super::effectors::invalid(
                (#[trigger] effectors[k]).kind,
            ) is None) ==> first_invalid(effectors) is None,
        0 <= i < effectors.len() && super::effectors::invalid(effectors[i].kind) is Some && (
        forall|k: int|
            0 <= k < i ==> super::effectors::invalid((#[trigger] effectors[k]).kind) is None)
            ==> first_invalid(effectors) == super::effectors::invalid(effectors[i].kind),
    decreases effectors.len(),
{
    if effectors.len() > 0 {
        let rest = effectors.skip(1);
        lemma_first_invalid(rest, i - 1);
        assert(forall|k: int| 0 <= k < rest.len() ==> #[trigger] rest[k] == effectors[k + 1]);
        if i > 0 && i < effectors.len() {
            assert(rest[i - 1] == effectors[i]);
        }
        if super::effectors::invalid(effectors[0].kind) is None {
            if forall|k: int|
                0 <= k < effectors.len() ==> super::effectors::invalid(
                    (#[trigger] effectors[k]).kind,
                ) is None {
                assert forall|k: int| 0 <= k < rest.len() implies super::effectors::invalid(
                    (#[trigger] rest[k]).kind,
                ) is None by {
                    assert(rest[k] == effectors[k + 1]);
                }
            }
            if forall|k: int|
                0 <= k < i ==> super::effectors::invalid((#[trigger] effectors[k]).kind) is None {
                assert forall|k: int| 0 <= k < i - 1 && k < rest.len() implies super::effectors::invalid(
                    (#[trigger] rest[k]).kind,
                ) is None by {
                    assert(rest[k] == effectors[k + 1]);
                }
            }
        } else {
            assert(super::effectors::invalid(effectors[0].kind) is Some);
        }
    }
}

} // verus!
