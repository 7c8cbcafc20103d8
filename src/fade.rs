use vstd::prelude::*;
use vstd::arithmetic::div_mod::{lemma_fundamental_div_mod, lemma_mod_pos_bound};

verus! {

/// Mix fractions are held in thousandths: 0 is the live camera image,
/// `MIX_SCALE` is the pure pattern.
pub const MIX_SCALE: u32 = 1000;

/// Default fade speed, in thousandths per second: a full fade takes half a second.
pub const FADE_RATE: u32 = 2000;

/// Microseconds in one second; also the number of carry units in one
/// thousandth of mix.
pub const MICROS_PER_SECOND: u64 = 1_000_000;

/// One fade step: `current` moves towards `target` by `step`, and stops on it.
pub open spec fn advanced(current: int, target: int, step: int) -> int {
    if current < target {
        if current + step >= target {
            target
        } else {
            current + step
        }
    } else if current > target {
        if current - step <= target {
            target
        } else {
            current - step
        }
    } else {
        current
    }
}

/// One tick of a fade, as `(new current, new carry)`.
///
/// `amount` is the tick length in microseconds times the rate in thousandths
/// per second, so `amount / MICROS_PER_SECOND` thousandths are owed; what is
/// left below a whole thousandth is kept in the carry for the next tick. A
/// settled fade does not move, and a fade that lands on its target drops its
/// carry.
pub open spec fn fade_step(current: int, target: int, carry: int, amount: int) -> (int, int) {
    let total = carry + amount;
    let m = MICROS_PER_SECOND as int;
    if current == target {
        (current, 0)
    } else {
        let next = advanced(current, target, total / m);
        (next, if next == target { 0 } else { total % m })
    }
}

/// `n` ticks of the same `amount`, one after the other.
pub open spec fn fade_n(current: int, target: int, carry: int, amount: int, n: nat) -> (int, int)
    decreases n,
{
    if n == 0 {
        (current, carry)
    } else {
        let s = fade_step(current, target, carry, amount);
        fade_n(s.0, target, s.1, amount, (n - 1) as nat)
    }
}

/// Distance between two mix values.
pub open spec fn distance(a: int, b: int) -> int {
    if a <= b {
        b - a
    } else {
        a - b
    }
}

/// Moves the mix `current` towards `target` for a tick of `dt_us` microseconds
/// at `rate` thousandths per second, never going past `target`. `carry` is the
/// part of a thousandth (in millionths) left over from earlier ticks; the
/// result is the new mix and the new carry. A zero `dt_us` with no carry
/// leaves `current` unchanged.
pub fn advance(current: u32, target: u32, carry: u32, dt_us: u32, rate: u32) -> (r: (u32, u32))
    requires
        current <= MIX_SCALE,
        target <= MIX_SCALE,
        carry < MICROS_PER_SECOND,
    ensures
        (r.0 as int, r.1 as int) == fade_step(
            current as int,
            target as int,
            carry as int,
            dt_us * rate,
        ),
        r.0 <= MIX_SCALE,
        r.1 < MICROS_PER_SECOND,
{
    if current == target {
        return (current, 0);
    }
    proof {
        assert(0 <= (dt_us as int) * (rate as int) <= (u32::MAX as int) * (u32::MAX as int))
            by (nonlinear_arith);
    }
    let total: u64 = (carry as u64) + (dt_us as u64) * (rate as u64);
    let step: u64 = total / MICROS_PER_SECOND;
    let rem: u32 = (total % MICROS_PER_SECOND) as u32;
    if current < target {
        if (current as u64) + step >= (target as u64) {
            (target, 0)
        } else {
            (current + (step as u32), rem)
        }
    } else {
        if step >= ((current - target) as u64) {
            (target, 0)
        } else {
            (current - (step as u32), rem)
        }
    }
}

/// The fade of a running application: the mix shown now, the mix it moves
/// to, and the fraction of a thousandth carried over from earlier ticks.
#[derive(Clone, Copy, Debug, PartialEq, Eq, Structural)]
pub struct Fade {
    pub current: u32,
    pub target: u32,
    pub carry: u32,
}

impl Fade {
    /// Both fractions lie in `[0, MIX_SCALE]` and the carry is below one
    /// thousandth.
    pub open spec fn wf(&self) -> bool {
        self.current <= MIX_SCALE && self.target <= MIX_SCALE && self.carry
            < MICROS_PER_SECOND
    }

    /// A fade resting on the camera image.
    pub fn new() -> (r: Fade)
        ensures
            r.wf(),
            r.current == 0,
            r.target == 0,
            r.carry == 0,
    {
        Fade { current: 0, target: 0, carry: 0 }
    }

    /// Whether the shown mix has reached its target.
    pub fn is_settled(&self) -> (r: bool)
        ensures
            r == (self.current == self.target),
    {
        self.current == self.target
    }

    /// Sets the mix to move to, clamped to `MIX_SCALE`; a new fade starts
    /// with no carry.
    pub fn set_target(&mut self, target: u32)
        requires
            old(self).wf(),
        ensures
            final(self).wf(),
            final(self).current == old(self).current,
            final(self).target == if target <= MIX_SCALE {
                target
            } else {
                MIX_SCALE
            },
            final(self).carry == 0,
    {
        self.target = if target <= MIX_SCALE { target } else { MIX_SCALE };
        self.carry = 0;
    }

    /// Sets the shown mix directly (a dragged slider), clamped to `MIX_SCALE`.
    /// The fade goes on from there towards the unchanged target, with no carry.
    pub fn set_current(&mut self, current: u32)
        requires
            old(self).wf(),
        ensures
            final(self).wf(),
            final(self).target == old(self).target,
            final(self).current == if current <= MIX_SCALE {
                current
            } else {
                MIX_SCALE
            },
            final(self).carry == 0,
    {
        self.current = if current <= MIX_SCALE { current } else { MIX_SCALE };
        self.carry = 0;
    }

    /// Advances the shown mix by one tick of `dt_us` microseconds at `FADE_RATE`.
    /// Returns whether the fade was already settled, in which case nothing moved
    /// and no redraw is needed on its account.
    pub fn tick(&mut self, dt_us: u32) -> (settled: bool)
        requires
            old(self).wf(),
        ensures
            final(self).wf(),
            settled == (old(self).current == old(self).target),
            final(self).target == old(self).target,
            (final(self).current as int, final(self).carry as int) == fade_step(
                old(self).current as int,
                old(self).target as int,
                old(self).carry as int,
                dt_us * FADE_RATE,
            ),
    {
        let settled = self.current == self.target;
        let (current, carry) = advance(self.current, self.target, self.carry, dt_us, FADE_RATE);
        self.current = current;
        self.carry = carry;
        settled
    }
}

/// A fade step never overshoots: the new mix lies between the old mix and the
/// target, both included, and it is no farther from the target than before.
pub proof fn lemma_fade_step_between(current: int, target: int, carry: int, amount: int)
    requires
        carry >= 0,
        amount >= 0,
    ensures
        ({
            let next = fade_step(current, target, carry, amount).0;
            &&& current <= target ==> current <= next <= target
            &&& target <= current ==> target <= next <= current
            &&& distance(next, target) <= distance(current, target)
        }),
{
    let m = MICROS_PER_SECOND as int;
    assert((carry + amount) / m >= 0);
}

/// Once the mix equals its target, a further tick leaves it where it is,
/// whatever the tick's length and the carry.
pub proof fn lemma_fade_step_settled(current: int, carry: int, amount: int)
    ensures
        fade_step(current, current, carry, amount) == (current, 0int),
{
}

/// Once reached, the target is kept by every later tick.
pub proof fn lemma_fade_stays_on_target(target: int, carry: int, amount: int, n: nat)
    ensures
        fade_n(target, target, carry, amount, n).0 == target,
    decreases n,
{
    if n > 0 {
        lemma_fade_stays_on_target(target, 0, amount, (n - 1) as nat);
    }
}

/// Ticks of a fixed positive length reach the target exactly: once the ticks
/// together owe at least the distance, the mix equals the target.
pub proof fn lemma_fade_reaches_target(
    current: int,
    target: int,
    carry: int,
    amount: int,
    n: nat,
)
    requires
        amount > 0,
        0 <= carry < MICROS_PER_SECOND,
        distance(current, target) * (MICROS_PER_SECOND as int) <= carry + n * amount,
    ensures
        fade_n(current, target, carry, amount, n).0 == target,
    decreases n,
{
    let m = MICROS_PER_SECOND as int;
    if n == 0 {
        assert(n * amount == 0) by (nonlinear_arith)
            requires
                n == 0,
        ;
    } else {
        let total = carry + amount;
        lemma_fundamental_div_mod(total, m);
        lemma_mod_pos_bound(total, m);
        assert(n * amount == (n - 1) * amount + amount) by (nonlinear_arith);
        let s = fade_step(current, target, carry, amount);
        if s.0 == target {
            lemma_fade_stays_on_target(target, s.1, amount, (n - 1) as nat);
        } else {
            assert(distance(s.0, target) == distance(current, target) - total / m);
            assert(distance(s.0, target) * m == distance(current, target) * m - (total / m) * m)
                by (nonlinear_arith)
                requires
                    distance(s.0, target) == distance(current, target) - total / m,
            ;
            lemma_fade_reaches_target(s.0, target, s.1, amount, (n - 1) as nat);
        }
    }
}

/// A fade with ticks of `amount` (tick length in microseconds times rate)
/// lands on its target after `ceil(distance * MICROS_PER_SECOND / amount)`
/// ticks, and stays there.
pub proof fn lemma_fade_tick_count(current: int, target: int, carry: int, amount: int, k: nat)
    requires
        amount > 0,
        0 <= carry < MICROS_PER_SECOND,
        k >= (distance(current, target) * (MICROS_PER_SECOND as int) + amount - 1) / amount,
    ensures
        fade_n(current, target, carry, amount, k).0 == target,
{
    let d = distance(current, target) * (MICROS_PER_SECOND as int);
    let n = (d + amount - 1) / amount;
    lemma_fundamental_div_mod(d + amount - 1, amount);
    lemma_mod_pos_bound(d + amount - 1, amount);
    assert(k * amount >= n * amount) by (nonlinear_arith)
        requires
            k >= n,
            amount > 0,
    ;
    assert(amount * n == n * amount) by (nonlinear_arith);
    lemma_fade_reaches_target(current, target, carry, amount, k);
}

} // verus!
