use vstd::prelude::*;
use vstd::arithmetic::power2::{pow2, lemma_pow2_pos, lemma_pow2_unfold, lemma_pow2_adds};
use vstd::arithmetic::div_mod::{lemma_mod_multiples_basic, lemma_fundamental_div_mod};

verus! {

/// Number of trailing zero bits of `x` (zero for `x == 0`).
pub open spec fn tz_nat(x: nat) -> nat
    decreases x,
{
    if x == 0 || x % 2 == 1 {
        0
    } else {
        1 + tz_nat(x / 2)
    }
}

/// Floor of the base-2 logarithm of `x` (zero for `x <= 1`).
pub open spec fn log2_floor(x: nat) -> nat
    decreases x,
{
    if x <= 1 {
        0
    } else {
        1 + log2_floor(x / 2)
    }
}

/// `n` is a power of two.
pub open spec fn is_power_of_two(n: nat) -> bool {
    exists|k: nat| pow2(k) == n
}

/// `2^a` divides `2^b` when `a <= b`.
pub proof fn lemma_pow2_divides(a: nat, b: nat)
    requires
        a <= b,
    ensures
        pow2(b) % pow2(a) == 0,
        pow2(a) <= pow2(b),
{
    lemma_pow2_adds(a, (b - a) as nat);
    lemma_pow2_pos(a);
    lemma_pow2_pos((b - a) as nat);
    lemma_mod_multiples_basic(pow2((b - a) as nat) as int, pow2(a) as int);
    assert(pow2(a) * pow2((b - a) as nat) >= pow2(a) * 1) by (nonlinear_arith)
        requires
            pow2((b - a) as nat) >= 1,
    ;
}

/// Alignment to `2^b` implies alignment to `2^a` for `a <= b`.
pub proof fn lemma_aligned_weaken(x: nat, a: nat, b: nat)
    requires
        a <= b,
        x % pow2(b) == 0,
    ensures
        x % pow2(a) == 0,
{
    lemma_pow2_adds(a, (b - a) as nat);
    lemma_pow2_pos(a);
    lemma_pow2_pos(b);
    lemma_fundamental_div_mod(x as int, pow2(b) as int);
    let q = x / pow2(b);
    assert(x == q * pow2(b));
    assert(x == (q * pow2((b - a) as nat)) * pow2(a)) by (nonlinear_arith)
        requires
            x == q * pow2(b),
            pow2(b) == pow2(a) * pow2((b - a) as nat),
    ;
    lemma_mod_multiples_basic((q * pow2((b - a) as nat)) as int, pow2(a) as int);
}

/// `x` is a multiple of `2^tz_nat(x)`, and (for `x > 0`) not of the next power.
pub proof fn lemma_tz_nat(x: nat)
    requires
        x > 0,
    ensures
        x % pow2(tz_nat(x)) == 0,
        (x / pow2(tz_nat(x))) % 2 == 1,
    decreases x,
{
    if x % 2 == 1 {
        vstd::arithmetic::power2::lemma2_to64();
        assert(tz_nat(x) == 0);
        assert(x / 1 == x);
    } else {
        let h = x / 2;
        assert(h > 0);
        lemma_tz_nat(h);
        let t = tz_nat(h);
        assert(tz_nat(x) == t + 1);
        lemma_pow2_unfold(t + 1);
        lemma_pow2_pos(t);
        let q = h / pow2(t);
        lemma_fundamental_div_mod(h as int, pow2(t) as int);
        assert(h == q * pow2(t));
        assert(x == q * pow2(t + 1)) by (nonlinear_arith)
            requires
                h == q * pow2(t),
                x == 2 * h,
                pow2(t + 1) == 2 * pow2(t),
        ;
        lemma_mod_multiples_basic(q as int, pow2(t + 1) as int);
        assert(x / pow2(t + 1) == q) by (nonlinear_arith)
            requires
                x == q * pow2(t + 1),
                pow2(t + 1) > 0,
        ;
        assert(q % 2 == 1);
    }
}

/// `2^log2_floor(x) <= x < 2^(log2_floor(x) + 1)` for `x >= 1`.
pub proof fn lemma_log2_floor(x: nat)
    requires
        x >= 1,
    ensures
        pow2(log2_floor(x)) <= x,
        x < pow2(log2_floor(x) + 1),
    decreases x,
{
    if x <= 1 {
        vstd::arithmetic::power2::lemma2_to64();
    } else {
        let h = x / 2;
        lemma_log2_floor(h);
        let t = log2_floor(h);
        lemma_pow2_unfold(t + 1);
        lemma_pow2_unfold(t + 2);
    }
}

/// A multiple of `d` below `n`, where `d` divides `n`, leaves room for `d` more.
pub proof fn lemma_aligned_room(a: nat, d: nat, n: nat)
    requires
        d > 0,
        a % d == 0,
        n % d == 0,
        a < n,
    ensures
        a + d <= n,
{
    lemma_fundamental_div_mod(a as int, d as int);
    lemma_fundamental_div_mod(n as int, d as int);
    let qa = a / d;
    let qn = n / d;
    assert(qa < qn) by (nonlinear_arith)
        requires
            a == d * qa,
            n == d * qn,
            a < n,
            d > 0,
    ;
    assert(a + d <= n) by (nonlinear_arith)
        requires
            a == d * qa,
            n == d * qn,
            qa + 1 <= qn,
            d > 0,
    ;
}

/// The two halves of a block aligned to `2^(k+1)` are aligned to `2^k`, and
/// the lower of two buddies at level `k` is aligned to `2^(k+1)`.
pub proof fn lemma_buddy_align(p: nat, k: nat)
    requires
        p % pow2(k) == 0,
    ensures
        (p / pow2(k)) % 2 == 0 ==> p % pow2(k + 1) == 0,
        (p / pow2(k)) % 2 == 1 ==> p >= pow2(k) && (p - pow2(k)) as nat % pow2(k + 1) == 0,
        (p + pow2(k)) % pow2(k) == 0,
{
    lemma_pow2_pos(k);
    lemma_pow2_unfold(k + 1);
    let s = pow2(k);
    lemma_fundamental_div_mod(p as int, s as int);
    let q = p / s;
    assert(p == q * s);
    lemma_mod_multiples_basic((q + 1) as int, s as int);
    assert(p + s == (q + 1) * s) by (nonlinear_arith)
        requires
            p == q * s,
    ;
    if q % 2 == 0 {
        let r = q / 2;
        assert(p == r * (2 * s)) by (nonlinear_arith)
            requires
                p == q * s,
                q == 2 * r,
        ;
        lemma_mod_multiples_basic(r as int, (2 * s) as int);
    } else {
        let r = q / 2;
        assert(q == 2 * r + 1);
        assert(p - s == r * (2 * s)) by (nonlinear_arith)
            requires
                p == q * s,
                q == 2 * r + 1,
        ;
        assert(p >= s) by (nonlinear_arith)
            requires
                p == q * s,
                q >= 1,
                s > 0,
        ;
        lemma_mod_multiples_basic(r as int, (2 * s) as int);
    }
}

} // verus!
