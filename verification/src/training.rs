//! The integer side of training: when enough samples are there, which of them are compared,
//! and the reproducible random numbers of the projection.

use vstd::prelude::*;

verus! {

/// What the collection of training samples does next.
#[derive(Debug, Clone, Copy, PartialEq, Eq, Structural)]
pub enum CollectStep {
    /// Wait for another sample.
    Collect,
    /// There are enough samples.
    Train,
    /// The system shuts down before there are enough.
    Abort,
}

/// Decides whether to go on collecting samples.
pub fn collect_step(collected: usize, target: usize, running: bool) -> (r: CollectStep)
    ensures
        r == (if collected >= target {
            CollectStep::Train
        } else if running {
            CollectStep::Collect
        } else {
            CollectStep::Abort
        }),
{
    if collected >= target {
        CollectStep::Train
    } else if running {
        CollectStep::Collect
    } else {
        CollectStep::Abort
    }
}

/// The largest number of samples of which all pairs are compared.
pub const MAX_SUBSET: usize = 2000;

/// Which samples are compared in pairs, and which of the ordered distances is their median.
#[derive(Debug, Clone, Copy, PartialEq, Eq, Structural)]
pub struct PairPlan {
    /// The samples compared are the first `subset` ones.
    pub subset: usize,
    /// The number of pairs of different samples among them.
    pub pairs: usize,
    /// The place of the median among the ordered distances.
    pub median: usize,
}

/// The number of pairs (k, l) with k < l < n.
pub open spec fn pair_count(n: nat) -> nat
    decreases n,
{
    if n == 0 {
        0
    } else {
        pair_count((n - 1) as nat) + (n - 1) as nat
    }
}

proof fn lemma_pair_count(n: nat)
    ensures
        2 * pair_count(n) == n * (n - 1),
    decreases n,
{
    if n > 0 {
        let m = (n - 1) as nat;
        lemma_pair_count(m);
        assert(m * (m - 1) + 2 * m == (m + 1) * m) by (nonlinear_arith);
        assert(n * (n - 1) == (m + 1) * m);
        assert(2 * pair_count(n) == 2 * pair_count(m) + 2 * m);
    } else {
        assert(n * (n - 1) == 0) by (nonlinear_arith)
            requires
                n == 0,
        ;
    }
}

/// Plans the comparison of `n` samples. There is nothing to train on without a sample; a
/// single sample has no pair, so that there is no median.
pub fn pair_plan(n: usize) -> (r: Option<PairPlan>)
    requires
        n != 1,
    ensures
        r is None <==> n == 0,
        r matches Some(plan) ==> {
            &&& plan.subset == if n <= MAX_SUBSET {
                n
            } else {
                MAX_SUBSET
            }
            &&& plan.pairs == pair_count(plan.subset as nat)
            &&& plan.median == plan.pairs / 2
            &&& plan.median < plan.pairs
        },
{
    if n == 0 {
        return None;
    }
    let subset: usize = if n <= MAX_SUBSET {
        n
    } else {
        MAX_SUBSET
    };
    proof {
        lemma_pair_count(subset as nat);
        assert(2 <= subset * (subset - 1) <= 2000 * 1999) by (nonlinear_arith)
            requires
                2 <= subset <= 2000,
        ;
    }
    let pairs: usize = subset * (subset - 1) / 2;
    Some(PairPlan { subset, pairs, median: pairs / 2 })
}

/// The multiplier of the random generator.
pub const LCG_MULTIPLIER: u64 = 6364136223846793005;

/// The state in which every training starts.
pub const LCG_SEED: u64 = 1337;

/// The state after `state`.
pub open spec fn lcg_next(state: u64) -> u64 {
    ((state * LCG_MULTIPLIER + 1) % 0x1_0000_0000_0000_0000) as u64
}

/// Linear congruential generator for a reproducible projection space.
#[derive(Debug, Clone, Copy, PartialEq, Eq, Structural)]
pub struct SimpleRand {
    pub state: u64,
}

impl SimpleRand {
    /// The generator with which every training starts.
    pub fn new() -> (r: SimpleRand)
        ensures
            r.state == LCG_SEED,
    {
        SimpleRand { state: LCG_SEED }
    }

    /// The next 53 random bits: the high bits of the next state.
    pub fn next_bits(&mut self) -> (r: u64)
        ensures
            final(self).state == lcg_next(old(self).state),
            r == final(self).state / 2048,
            r < 0x20_0000_0000_0000,
    {
        proof {
            lemma_wrap((self.state * LCG_MULTIPLIER) as int);
        }
        let product: u64 = self.state.wrapping_mul(LCG_MULTIPLIER);
        self.state = product.wrapping_add(1);
        let s = self.state;
        assert(s >> 11 == s / 2048) by (bit_vector);
        self.state >> 11
    }
}

/// Adding one before or after the reduction to 64 bits makes no difference.
proof fn lemma_wrap(product: int)
    requires
        product >= 0,
    ensures
        ({
            let low = product % 0x1_0000_0000_0000_0000;
            (product + 1) % 0x1_0000_0000_0000_0000 == if low + 1 > u64::MAX {
                low + 1 - 0x1_0000_0000_0000_0000
            } else {
                low + 1
            }
        }),
{
}

/// The state of the generator after `n` draws.
pub open spec fn lcg_after(state: u64, n: nat) -> u64
    decreases n,
{
    if n == 0 {
        state
    } else {
        lcg_next(lcg_after(state, (n - 1) as nat))
    }
}

/// Draws compose: `a` draws and then `b` draws are `a + b` draws, so the sequence depends on
/// the seed alone.
pub proof fn law_draws_compose(state: u64, a: nat, b: nat)
    ensures
        lcg_after(lcg_after(state, a), b) == lcg_after(state, a + b),
    decreases b,
{
    if b > 0 {
        law_draws_compose(state, a, (b - 1) as nat);
    }
}

/// Collection ends in training exactly when the target is reached, and is given up exactly when
/// the system stops before that.
pub proof fn law_collection_ends_at_the_target(
    collected: usize,
    target: usize,
    running: bool,
    r: CollectStep,
)
    requires
        call_ensures(collect_step, (collected, target, running), r),
    ensures
        r is Train <==> collected >= target,
        r is Collect <==> collected < target && running,
        r is Abort <==> collected < target && !running,
{
}

/// The pairs compared are all unordered pairs among the first samples, two thousand at most, and
/// the median has as many distances before it as after it, or one more.
pub proof fn law_all_pairs_are_compared(n: usize, r: Option<PairPlan>)
    requires
        n != 1,
        call_ensures(pair_plan, (n,), r),
    ensures
        r is None <==> n == 0,
        r matches Some(plan) ==> {
            &&& plan.subset <= n && plan.subset <= 2000
            &&& plan.subset == n || plan.subset == 2000
            &&& 2 * plan.pairs == plan.subset * (plan.subset - 1)
            &&& plan.median < plan.pairs
            &&& plan.pairs - plan.median - 1 <= plan.median <= plan.pairs - plan.median
        },
{
    if let Some(plan) = r {
        lemma_pair_count(plan.subset as nat);
    }
}

/// One draw multiplies the state by the generator's constant and adds one, modulo 2 to the 64.
pub proof fn law_draw_is_linear_congruential(state: u64)
    ensures
        (state * 6364136223846793005 + 1 - lcg_next(state)) % 0x1_0000_0000_0000_0000 == 0,
        lcg_after(state, 0) == state,
        lcg_after(state, 1) == lcg_next(state),
{
    reveal_with_fuel(lcg_after, 2);
    let x = state * 6364136223846793005 + 1;
    vstd::arithmetic::div_mod::lemma_fundamental_div_mod(x, 0x1_0000_0000_0000_0000);
    vstd::arithmetic::div_mod::lemma_mod_multiples_basic(
        x / 0x1_0000_0000_0000_0000,
        0x1_0000_0000_0000_0000,
    );
}

/// A draw moves the generator by one step and hands out the upper 53 bits of the new state.
pub proof fn law_draw_hands_out_the_upper_bits(rand: &mut SimpleRand, r: u64)
    requires
        call_ensures(SimpleRand::next_bits, (rand,), r),
    ensures
        (old(rand).state * 6364136223846793005 + 1 - final(rand).state) % 0x1_0000_0000_0000_0000
            == 0,
        r * 2048 <= final(rand).state < (r + 1) * 2048,
{
    law_draw_is_linear_congruential(old(rand).state);
}

/// Every training starts from the same state.
pub proof fn law_training_starts_from_one_seed(r: SimpleRand)
    requires
        call_ensures(SimpleRand::new, (), r),
    ensures
        r.state == 1337,
{
}

} // verus!
