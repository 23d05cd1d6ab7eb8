//! Delay normalization: one uniform delay for the whole stream, computed as
//! the iterated GCD of every frame delay that differs from the running value.

use vstd::arithmetic::div_mod::{
    lemma_add_mod_noop, lemma_fundamental_div_mod, lemma_mul_mod_noop_right,
};
use vstd::prelude::*;

verus! {

/// Smallest delay (hundredths of a second) the output is allowed to carry;
/// many players clamp or mis-render anything below it.
pub const MIN_DELAY: u16 = 2;

/// Duration (hundredths of a second) assumed for a frame that requests no
/// delay at all, matching the common player default of about 100 ms.
pub const ZERO_DELAY: u16 = 10;

/// Greatest common divisor, `spec_gcd(a, 0) == a`.
pub open spec fn spec_gcd(a: int, b: int) -> int
    recommends
        0 <= a,
        0 <= b,
    decreases b,
{
    if b <= 0 {
        a
    } else {
        spec_gcd(b, a % b)
    }
}

/// A frame delay as the normalizer weighs it: delays below the floor count
/// as the floor itself.
pub open spec fn spec_adjusted_delay(d: u16) -> int {
    if d < MIN_DELAY {
        MIN_DELAY as int
    } else {
        d as int
    }
}

/// The running value of the normalizer's scan over a non-empty delay
/// sequence: it starts at the first delay and folds in, by GCD, the adjusted
/// value of every later delay that differs from it.
pub open spec fn spec_running_delay(s: Seq<u16>) -> int
    recommends
        s.len() >= 1,
    decreases s.len(),
{
    if s.len() <= 1 {
        s[0] as int
    } else {
        let prev = spec_running_delay(s.drop_last());
        if s.last() as int == prev {
            prev
        } else {
            spec_gcd(prev, spec_adjusted_delay(s.last()))
        }
    }
}

/// Whether every delay of the sequence equals the first, in which case the
/// stream is already uniform and is left untouched.
pub open spec fn spec_all_same(s: Seq<u16>) -> bool {
    forall|i: int| 0 <= i < s.len() ==> #[trigger] s[i] == s[0]
}

/// The delay stamped on every output frame: the scan's result, clamped up to
/// the floor.
pub open spec fn spec_uniform_delay(s: Seq<u16>) -> int {
    if spec_running_delay(s) < MIN_DELAY as int {
        MIN_DELAY as int
    } else {
        spec_running_delay(s)
    }
}

/// The GCD of non-negative operands is non-negative, and no larger than a
/// positive second operand.
pub proof fn lemma_gcd_bounds(a: int, b: int)
    requires
        0 <= a,
        0 <= b,
    ensures
        0 <= spec_gcd(a, b),
        b >= 1 ==> spec_gcd(a, b) <= b,
    decreases b,
{
    if b >= 1 {
        let r = a % b;
        if r != 0 {
            lemma_gcd_bounds(b, r);
        }
    }
}

/// Law: the GCD is a common divisor — unless both operands are 0 it is
/// positive, and it divides both of them.
pub proof fn lemma_gcd_divides(a: int, b: int)
    requires
        0 <= a,
        0 <= b,
    ensures
        a > 0 || b > 0 ==> spec_gcd(a, b) >= 1,
        spec_gcd(a, b) >= 1 ==> a % spec_gcd(a, b) == 0 && b % spec_gcd(a, b) == 0,
    decreases b,
{
    if b == 0 {
        if a > 0 {
            assert(a % a == 0) by (nonlinear_arith)
                requires
                    a > 0,
            ;
            assert(0int % a == 0) by (nonlinear_arith)
                requires
                    a > 0,
            ;
        }
    } else {
        let r = a % b;
        let g = spec_gcd(b, r);
        lemma_gcd_divides(b, r);
        assert(b % g == 0 && r % g == 0);
        lemma_fundamental_div_mod(a, b);
        assert(a == b * (a / b) + r);
        lemma_mul_mod_noop_right(a / b, b, g);
        assert((a / b) * (b % g) % g == ((a / b) * b) % g);
        assert((a / b) * 0 == 0) by (nonlinear_arith);
        assert(0int % g == 0) by (nonlinear_arith)
            requires
                g >= 1,
        ;
        assert(((a / b) * b) % g == 0);
        lemma_add_mod_noop((a / b) * b, r, g);
        assert(a % g == 0);
    }
}

/// The scan's running value stays a `u16`: it starts at a delay and every
/// GCD step keeps it between 0 and the adjusted delay folded in.
pub proof fn lemma_running_delay_bounds(s: Seq<u16>)
    requires
        s.len() >= 1,
    ensures
        0 <= spec_running_delay(s) <= u16::MAX as int,
    decreases s.len(),
{
    if s.len() > 1 {
        lemma_running_delay_bounds(s.drop_last());
        let prev = spec_running_delay(s.drop_last());
        if s.last() as int != prev {
            lemma_gcd_bounds(prev, spec_adjusted_delay(s.last()));
        }
    }
}

/// Law: the uniform delay never falls below the floor, and always fits a
/// `u16`.
pub proof fn lemma_uniform_delay_bounds(s: Seq<u16>)
    requires
        s.len() >= 1,
    ensures
        MIN_DELAY as int <= spec_uniform_delay(s) <= u16::MAX as int,
{
    lemma_running_delay_bounds(s);
}

/// Euclidean GCD, with an extra swap so the pair stays ordered
/// (dividend >= divisor) going into the next iteration.
pub fn gcd(a: u16, b: u16) -> (r: u16)
    ensures
        r as int == spec_gcd(a as int, b as int),
{
    let mut x = a;
    let mut y = b;
    while y != 0
        invariant
            spec_gcd(x as int, y as int) == spec_gcd(a as int, b as int),
        decreases y,
    {
        let rem = x % y;
        x = y;
        y = rem;
        if x < y {
            let t = x;
            x = y;
            y = t;
        }
    }
    x
}

/// Scans all frame delays and computes the stream's uniform delay.
///
/// Returns `None` when every delay already equals the first: the stream
/// needs no normalization and must be left untouched. Otherwise returns the
/// uniform delay, which is at least `MIN_DELAY`.
pub fn uniform_delay(delays: &Vec<u16>) -> (r: Option<u16>)
    requires
        delays@.len() >= 1,
    ensures
        r is None <==> spec_all_same(delays@),
        r matches Some(u) ==> u as int == spec_uniform_delay(delays@),
        r matches Some(u) ==> u >= MIN_DELAY,
{
    let mut delay: u16 = delays[0];
    let mut any_different: bool = false;
    let mut i: usize = 1;
    while i < delays.len()
        invariant
            1 <= i <= delays@.len(),
            delays@.len() >= 1,
            delay as int == spec_running_delay(delays@.take(i as int)),
            any_different == !spec_all_same(delays@.take(i as int)),
            !any_different ==> delay == delays@[0],
        decreases delays@.len() - i,
    {
        let d = delays[i];
        if delay != d {
            let m = if d < MIN_DELAY {
                MIN_DELAY
            } else {
                d
            };
            delay = gcd(delay, m);
            any_different = true;
        }
        proof {
            let s = delays@.take(i as int + 1);
            assert(s.drop_last() =~= delays@.take(i as int));
            assert(s.last() == delays@[i as int]);
            assert(spec_all_same(s) <==> spec_all_same(delays@.take(i as int))
                && delays@[i as int] == delays@[0]);
        }
        i = i + 1;
    }
    proof {
        assert(delays@.take(delays@.len() as int) =~= delays@);
    }
    if !any_different {
        return None;
    }
    if delay < MIN_DELAY {
        delay = MIN_DELAY;
    }
    Some(delay)
}

} // verus!
