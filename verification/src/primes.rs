//! Prime numbers: inverses modulo a prime, the order of a residue, and Pocklington's criterion.

use vstd::arithmetic::div_mod::*;
use vstd::arithmetic::mul::*;
use vstd::arithmetic::power::*;
use vstd::prelude::*;
use vstd::set_lib::*;

use crate::congruence;

verus! {

/// `n` has exactly the divisors 1 and `n`.
pub open spec fn is_prime(n: nat) -> bool {
    &&& n > 1
    &&& forall|d: nat| 1 < d < n ==> #[trigger] (n % d) != 0
}

/// The greatest common divisor.
pub open spec fn gcd(a: nat, b: nat) -> nat
    decreases b,
{
    if b == 0 {
        a
    } else {
        gcd(b, a % b)
    }
}

/// `x` has an inverse modulo `n`.
pub open spec fn invertible(x: int, n: nat) -> bool {
    exists|w: int| #[trigger] (x * w) % (n as int) == 1
}

/// The product of the members of a sequence.
pub open spec fn product(s: Seq<nat>) -> nat
    decreases s.len(),
{
    if s.len() == 0 {
        1
    } else {
        product(s.drop_last()) * s.last()
    }
}

/// The greatest common divisor is a combination of the two numbers.
pub(crate) proof fn lemma_bezout(a: nat, b: nat) -> (r: (int, int))
    ensures
        a * r.0 + b * r.1 == gcd(a, b),
    decreases b,
{
    if b == 0 {
        (1, 0)
    } else {
        let (x, y) = lemma_bezout(b, a % b);
        let q = (a / b) as int;
        lemma_fundamental_div_mod(a as int, b as int);
        // b x + (a - b q) y = a y + b (x - q y)
        lemma_mul_is_distributive_sub_other_way(y, a as int, b * q);
        lemma_mul_is_distributive_sub(b as int, x, q * y);
        lemma_mul_is_associative(b as int, q, y);
        (y, x - q * y)
    }
}

pub(crate) proof fn lemma_gcd_divides(a: nat, b: nat)
    requires
        a > 0 || b > 0,
    ensures
        gcd(a, b) > 0,
        a % gcd(a, b) == 0,
        b % gcd(a, b) == 0,
    decreases b,
{
    if b == 0 {
        lemma_mod_self_0(a as int);
    } else {
        lemma_gcd_divides(b, a % b);
        let g = gcd(a, b) as int;
        let k = congruence::lemma_divides_witness(b as int, g);
        let l = congruence::lemma_divides_witness((a % b) as int, g);
        let q = (a / b) as int;
        lemma_fundamental_div_mod(a as int, b as int);
        assert(a as int == (k * q + l) * g) by (nonlinear_arith)
            requires
                a as int == (b as int) * q + (a % b) as int,
                b as int == k * g,
                (a % b) as int == l * g,
        ;
        congruence::lemma_add_multiple(0, k * q + l, g);
    }
}

/// A divisor of a positive number is at most that number.
pub(crate) proof fn lemma_divisor_bound(n: nat, d: nat)
    requires
        n > 0,
        d > 0,
        n % d == 0,
    ensures
        d <= n,
{
    if d > n {
        lemma_small_mod(n, d);
    }
}

/// A number that a prime does not divide has an inverse modulo the prime.
pub(crate) proof fn lemma_prime_inverse(a: nat, p: nat) -> (x: nat)
    requires
        is_prime(p),
        a % p != 0,
    ensures
        0 < x < p,
        (a * x) % p == 1,
{
    let g = gcd(a, p);
    lemma_gcd_divides(a, p);
    lemma_divisor_bound(p, g);
    if g == p {
        assert(false);
    }
    assert(g == 1);
    let (u, v) = lemma_bezout(a, p);
    let x = u % (p as int);
    lemma_mod_bound(u, p as int);
    lemma_mul_mod_noop_right(a as int, u, p as int);
    lemma_mul_is_commutative(p as int, v);
    congruence::lemma_add_multiple(a * u, v, p as int);
    lemma_small_mod(1, p);
    if x == 0 {
        lemma_mul_basics(a as int);
        lemma_small_mod(0, p);
        assert(false);
    }
    x as nat
}

/// A number has at most one inverse below the modulus.
pub(crate) proof fn lemma_inverse_unique(a: nat, x: nat, y: nat, m: nat)
    requires
        m > 1,
        x < m,
        y < m,
        (a * x) % m == 1,
        (a * y) % m == 1,
    ensures
        x == y,
{
    lemma_mul_is_commutative(a as int, x as int);
    lemma_mul_is_commutative(a as int, y as int);
    congruence::lemma_congruent_cancel(x as int, y as int, a as int, x as int, m as int);
    congruence::lemma_small_residues(x as int, y as int, m as int);
}

/// A number times the inverse of another is their quotient.
pub(crate) proof fn lemma_quotient(a: nat, b: nat, b_inverse: nat, q: nat, m: nat)
    requires
        m > 1,
        a < m,
        (b * b_inverse) % m == 1,
        q == (a * b_inverse) % m,
    ensures
        (q * b) % m == a,
{
    lemma_mul_mod_noop_left((a * b_inverse) as int, b as int, m as int);
    lemma_mul_is_associative(a as int, b_inverse as int, b as int);
    lemma_mul_is_commutative(b_inverse as int, b as int);
    lemma_small_mod(1, m);
    congruence::lemma_congruent_mul(a as int, a as int, (b * b_inverse) as int, 1, m as int);
    lemma_small_mod(a, m);
}

/// A prime that divides a product divides one of the factors.
pub(crate) proof fn lemma_euclid(a: nat, b: nat, p: nat)
    requires
        is_prime(p),
        (a * b) % p == 0,
    ensures
        a % p == 0 || b % p == 0,
{
    if a % p != 0 {
        let x = lemma_prime_inverse(a, p);
        // b = b (a x) = (a b) x = 0
        lemma_small_mod(1, p);
        congruence::lemma_congruent_mul(b as int, b as int, (a * x) as int, 1, p as int);
        lemma_small_mod(0, p);
        congruence::lemma_congruent_mul((a * b) as int, 0, x as int, x as int, p as int);
        assert((a * b) * x == b * (a * x)) by (nonlinear_arith);
        lemma_mul_basics(x as int);
    }
}

/// Modulo a prime, a product of nonzero residues is not zero.
pub(crate) proof fn lemma_nonzero_product(a: nat, b: nat, p: nat)
    requires
        is_prime(p),
        0 < a < p,
        0 < b < p,
    ensures
        (a * b) % p != 0,
{
    lemma_small_mod(a, p);
    lemma_small_mod(b, p);
    if (a * b) % p == 0 {
        lemma_euclid(a, b, p);
    }
}

/// From an inverse `z` of a product, inverses of the two factors.
pub(crate) proof fn lemma_split_inverse(a: nat, b: nat, z: nat, m: nat)
    requires
        m > 1,
        (((a * b) % m) * z) % m == 1,
    ensures
        (a * ((b * z) % m)) % m == 1,
        (b * ((a * z) % m)) % m == 1,
{
    let n = m as int;
    lemma_mul_mod_noop_left((a * b) as int, z as int, n);
    lemma_mul_mod_noop_right(a as int, (b * z) as int, n);
    lemma_mul_mod_noop_right(b as int, (a * z) as int, n);
    assert((a * b) * z == a * (b * z)) by (nonlinear_arith);
    assert((a * b) * z == b * (a * z)) by (nonlinear_arith);
}

/// A divisor greater than 1 of a product of primes is divisible by one of them.
proof fn lemma_prime_factor(h: nat, qs: Seq<nat>) -> (i: int)
    requires
        h > 1,
        product(qs) % h == 0,
        forall|j: int| 0 <= j < qs.len() ==> is_prime(#[trigger] qs[j]),
    ensures
        0 <= i < qs.len(),
        h % qs[i] == 0,
    decreases qs.len(),
{
    if qs.len() == 0 {
        lemma_small_mod(1, h);
        assert(false);
        0
    } else {
        let q = qs.last();
        assert(is_prime(qs[qs.len() - 1]));
        let p = product(qs.drop_last());
        if h % q == 0 {
            qs.len() - 1
        } else {
            let y = lemma_prime_inverse(h, q);
            let k = (h * y) / q;
            lemma_fundamental_div_mod((h * y) as int, q as int);
            // p = p h y - k (p q), and h divides both terms
            let m = congruence::lemma_divides_witness((p * q) as int, h as int);
            assert(p as int == (p * y - k * m) * h) by (nonlinear_arith)
                requires
                    (h * y) as int == (q * k) as int + 1,
                    (p * q) as int == m * h as int,
            ;
            congruence::lemma_add_multiple(0, p * y - k * m, h as int);
            lemma_prime_factor(h, qs.drop_last())
        }
    }
}

pub(crate) proof fn lemma_product_divisible(qs: Seq<nat>, i: int)
    requires
        0 <= i < qs.len(),
        qs[i] > 0,
    ensures
        product(qs) % qs[i] == 0,
    decreases qs.len(),
{
    let q = qs[i];
    let p = product(qs.drop_last());
    if i == qs.len() - 1 {
        congruence::lemma_add_multiple(0, p as int, q as int);
    } else {
        lemma_product_divisible(qs.drop_last(), i);
        let k = congruence::lemma_divides_witness(p as int, q as int);
        assert((k * q) * qs.last() == (k * qs.last()) * q) by (nonlinear_arith);
        congruence::lemma_add_multiple(0, k * qs.last(), q as int);
    }
}

/// Two exponents that give 1 have a greatest common divisor that gives 1.
proof fn lemma_pow_gcd(b: int, x: nat, y: nat, s: nat)
    requires
        s > 1,
        pow(b, x) % (s as int) == 1,
        pow(b, y) % (s as int) == 1,
    ensures
        pow(b, gcd(x, y)) % (s as int) == 1,
    decreases y,
{
    if y != 0 {
        let m = s as int;
        let q = x / y;
        let r = x % y;
        lemma_fundamental_div_mod(x as int, y as int);
        lemma_pow_adds(b, y * q, r);
        lemma_pow_multiplies(b, y, q);
        lemma_small_mod(1, s);
        congruence::lemma_congruent_pow(pow(b, y), 1, q, m);
        lemma1_pow(q);
        congruence::lemma_congruent_mul(pow(b, y * q), 1, pow(b, r), pow(b, r), m);
        lemma_pow_gcd(b, y, r, s);
    }
}

/// If the power `f` of a residue is 1, and no power `f / q` is for a prime `q` of `f`, then `f`
/// is the order of the residue.
pub(crate) proof fn lemma_order(b: int, qs: Seq<nat>, s: nat, k: nat)
    requires
        s > 1,
        forall|j: int| 0 <= j < qs.len() ==> is_prime(#[trigger] qs[j]),
        pow(b, product(qs)) % (s as int) == 1,
        forall|j: int|
            0 <= j < qs.len() ==> pow(b, product(qs) / #[trigger] qs[j]) % (s as int) != 1,
        0 < k < product(qs),
    ensures
        pow(b, k) % (s as int) != 1,
{
    let f = product(qs);
    let m = s as int;
    if pow(b, k) % m == 1 {
        let g = gcd(k, f);
        lemma_pow_gcd(b, k, f, s);
        lemma_gcd_divides(k, f);
        lemma_divisor_bound(k, g);
        let h = f / g;
        lemma_fundamental_div_mod(f as int, g as int);
        if h <= 1 {
            lemma_mul_basics(g as int);
            assert(false);
        }
        congruence::lemma_add_multiple(0, g as int, h as int);
        let i = lemma_prime_factor(h, qs);
        let q = qs[i];
        assert(is_prime(q));
        let l = congruence::lemma_divides_witness(h as int, q as int);
        if l <= 0 {
            lemma_mul_inequality(l, 0, q as int);
            assert(false);
        }
        assert(f as int == (g * l) * q) by (nonlinear_arith)
            requires
                f as int == (g * h) as int,
                h as int == l * q as int,
        ;
        lemma_div_by_multiple(g * l, q as int);
        assert(f / q == g * l as nat);
        lemma_pow_multiplies(b, g, l as nat);
        lemma_small_mod(1, s);
        congruence::lemma_congruent_pow(pow(b, g), 1, l as nat, m);
        lemma1_pow(l as nat);
        assert(false);
    }
}

/// Two powers of an element agree only where the power of the difference is 1.
pub(crate) proof fn lemma_equal_powers(b: int, i: nat, j: nat, f: nat, s: nat)
    requires
        s > 1,
        i <= j,
        i <= f,
        pow(b, f) % (s as int) == 1,
        pow(b, i) % (s as int) == pow(b, j) % (s as int),
    ensures
        pow(b, (j - i) as nat) % (s as int) == 1,
{
    let m = s as int;
    let c = pow(b, i);
    let c_inverse = pow(b, (f - i) as nat);
    lemma_pow_adds(b, i, (f - i) as nat);
    lemma_pow_adds(b, (j - i) as nat, i);
    lemma_mul_basics(c);
    congruence::lemma_congruent_cancel(pow(b, (j - i) as nat), 1, c, c_inverse, m);
    lemma_small_mod(1, s);
}

/// An element of order `f` has `f` different nonzero powers, so the modulus exceeds `f`.
pub(crate) proof fn lemma_order_bound(b: int, f: nat, s: nat)
    requires
        s > 1,
        f > 0,
        pow(b, f) % (s as int) == 1,
        forall|k: nat| 0 < k < f ==> #[trigger] pow(b, k) % (s as int) != 1,
    ensures
        f < s,
{
    let m = s as int;
    let powers = Seq::new(f, |k: int| pow(b, k as nat) % m);
    assert forall|i: int, j: int| 0 <= i < f && 0 <= j < f && i != j implies powers[i]
        != powers[j] by {
        if powers[i] == powers[j] {
            if i < j {
                lemma_equal_powers(b, i as nat, j as nat, f, s);
                assert(pow(b, (j - i) as nat) % m != 1);
            } else {
                lemma_equal_powers(b, j as nat, i as nat, f, s);
                assert(pow(b, (i - j) as nat) % m != 1);
            }
        }
    }
    assert(powers.no_duplicates());
    powers.unique_seq_to_set();
    lemma_int_range(1, m);
    assert forall|v: int| powers.to_set().contains(v) implies set_int_range(1, m).contains(v) by {
        let k = choose|k: int| 0 <= k < f && powers[k] == v;
        lemma_mod_bound(pow(b, k as nat), m);
        if v == 0 {
            lemma_pow_adds(b, k as nat, (f - k) as nat);
            lemma_small_mod(0, s);
            congruence::lemma_congruent_mul(
                pow(b, k as nat),
                0,
                pow(b, (f - k) as nat),
                pow(b, (f - k) as nat),
                m,
            );
            lemma_mul_basics(pow(b, (f - k) as nat));
            assert(false);
        }
    }
    lemma_len_subset(powers.to_set(), set_int_range(1, m));
}

/// A remainder modulo `n` decides the remainder modulo a divisor of `n`.
proof fn lemma_mod_divisor(x: int, y: int, n: nat, s: nat)
    requires
        n > 0,
        s > 0,
        n % s == 0,
        x % (n as int) == y % (n as int),
    ensures
        x % (s as int) == y % (s as int),
{
    let k = congruence::lemma_divides_witness(n as int, s as int);
    lemma_fundamental_div_mod(x, n as int);
    lemma_fundamental_div_mod(y, n as int);
    let d = x / (n as int) - y / (n as int);
    assert(x == y + (d * k) * s) by (nonlinear_arith)
        requires
            x - y == n * (x / (n as int)) - n * (y / (n as int)),
            d == x / (n as int) - y / (n as int),
            n as int == k * s,
    ;
    congruence::lemma_add_multiple(y, d * k, s as int);
}

/// The order argument behind Pocklington's criterion, for one divisor `s` of `n`.
proof fn lemma_pocklington_divisor(n: nat, a: int, qs: Seq<nat>, s: nat)
    requires
        s > 1,
        n > 1,
        n % s == 0,
        forall|j: int| 0 <= j < qs.len() ==> is_prime(#[trigger] qs[j]),
        product(qs) > 0,
        ((n - 1) as nat) % product(qs) == 0,
        pow(a, (n - 1) as nat) % (n as int) == 1,
        forall|j: int|
            0 <= j < qs.len() ==> invertible(pow(a, ((n - 1) as nat) / #[trigger] qs[j]) - 1, n),
    ensures
        product(qs) < s,
{
    let f = product(qs);
    let m = s as int;
    let t = congruence::lemma_divides_witness(n - 1, f as int);
    if t <= 0 {
        lemma_mul_inequality(t, 0, f as int);
        assert(false);
    }
    let b = pow(a, t as nat);
    lemma_pow_multiplies(a, t as nat, f);
    lemma_small_mod(1, s);
    lemma_small_mod(1, n);
    lemma_mod_divisor(pow(b, f), 1, n, s);
    assert forall|j: int| 0 <= j < qs.len() implies pow(b, f / #[trigger] qs[j]) % m != 1 by {
        let q = qs[j];
        assert(is_prime(q));
        lemma_product_divisible(qs, j);
        let l = congruence::lemma_divides_witness(f as int, q as int);
        if l <= 0 {
            lemma_mul_inequality(l, 0, q as int);
            assert(false);
        }
        lemma_div_by_multiple(l, q as int);
        assert(n - 1 == (t * l) * q) by (nonlinear_arith)
            requires
                n - 1 == t * f as int,
                f as int == l * q,
        ;
        lemma_div_by_multiple(t * l, q as int);
        assert(((n - 1) as nat) / q == t as nat * l as nat);
        lemma_pow_multiplies(a, t as nat, l as nat);
        let x = pow(a, ((n - 1) as nat) / q) - 1;
        assert(pow(b, f / q) == x + 1);
        assert(invertible(x, n));
        let w = choose|w: int| #[trigger] (x * w) % (n as int) == 1;
        lemma_mod_divisor(x * w, 1, n, s);
        if pow(b, f / q) % m == 1 {
            congruence::lemma_congruent_sub(x + 1, 1, 1, 1, m);
            congruence::lemma_congruent_mul(x, 0, w, w, m);
            lemma_mul_basics(w);
            lemma_small_mod(0, s);
            assert(false);
        }
    }
    assert forall|k: nat| 0 < k < f implies #[trigger] pow(b, k) % m != 1 by {
        lemma_order(b, qs, s, k);
    }
    lemma_order_bound(b, f, s);
}

/// Pocklington's criterion. Let `f` be a product of primes that divides `n - 1`, with `f * f` at
/// least `n`. If the power `n - 1` of `a` is 1 modulo `n`, and for each of the primes `q` the
/// power `(n - 1) / q` less 1 is invertible, then `n` is prime.
pub(crate) proof fn lemma_pocklington(n: nat, a: int, qs: Seq<nat>)
    requires
        n > 1,
        forall|j: int| 0 <= j < qs.len() ==> is_prime(#[trigger] qs[j]),
        product(qs) > 0,
        ((n - 1) as nat) % product(qs) == 0,
        product(qs) * product(qs) >= n,
        pow(a, (n - 1) as nat) % (n as int) == 1,
        forall|j: int|
            0 <= j < qs.len() ==> invertible(pow(a, ((n - 1) as nat) / #[trigger] qs[j]) - 1, n),
    ensures
        is_prime(n),
{
    let f = product(qs);
    assert forall|d: nat| 1 < d < n implies #[trigger] (n % d) != 0 by {
        if n % d == 0 {
            let e = congruence::lemma_divides_witness(n as int, d as int);
            if e <= 1 {
                lemma_mul_inequality(e, 1, d as int);
                assert(false);
            }
            congruence::lemma_add_multiple(0, d as int, e);
            lemma_mul_is_commutative(e, d as int);
            lemma_pocklington_divisor(n, a, qs, d);
            lemma_pocklington_divisor(n, a, qs, e as nat);
            assert(f * f < d * e) by (nonlinear_arith)
                requires
                    f < d,
                    (f as int) < e,
            ;
            assert(false);
        }
    }
}

/// Pocklington's criterion for a single prime `q` of `n - 1 = q * e`, on residues: `y` is the
/// power `e` of `a`, and `w` the inverse of `y - 1`.
pub(crate) proof fn lemma_prime_by_one(n: nat, a: int, q: nat, e: nat, y: int, w: int)
    requires
        n > 1,
        is_prime(q),
        q * e == n - 1,
        q * q >= n,
        pow(a, (n - 1) as nat) % (n as int) == 1,
        pow(a, e) % (n as int) == y,
        ((y - 1) * w) % (n as int) == 1,
    ensures
        is_prime(n),
{
    let qs = seq![q];
    assert(qs.drop_last() =~= Seq::<nat>::empty());
    reveal_with_fuel(product, 2);
    lemma_mul_basics(q as int);
    lemma_mul_is_commutative(q as int, e as int);
    congruence::lemma_add_multiple(0, e as int, q as int);
    lemma_div_by_multiple(e as int, q as int);
    lemma_shift_invertible(a, e, n, y, w);
    lemma_pocklington(n, a, qs);
}

/// Pocklington's criterion for two primes of `n - 1 = q1 * q2 * e = q1 * e1 = q2 * e2`.
pub(crate) proof fn lemma_prime_by_two(
    n: nat,
    a: int,
    q1: nat,
    q2: nat,
    e: nat,
    e1: nat,
    e2: nat,
    y1: int,
    y2: int,
    w1: int,
    w2: int,
)
    requires
        n > 1,
        is_prime(q1),
        is_prime(q2),
        q1 * e1 == n - 1,
        q2 * e2 == n - 1,
        q1 * q2 * e == n - 1,
        (q1 * q2) * (q1 * q2) >= n,
        pow(a, (n - 1) as nat) % (n as int) == 1,
        pow(a, e1) % (n as int) == y1,
        pow(a, e2) % (n as int) == y2,
        ((y1 - 1) * w1) % (n as int) == 1,
        ((y2 - 1) * w2) % (n as int) == 1,
    ensures
        is_prime(n),
{
    let qs = seq![q1, q2];
    assert(qs.drop_last() =~= seq![q1]);
    assert(qs.drop_last().drop_last() =~= Seq::<nat>::empty());
    reveal_with_fuel(product, 3);
    lemma_mul_basics(q1 as int);
    lemma_mul_strictly_positive(q1 as int, q2 as int);
    lemma_mul_is_commutative((q1 * q2) as int, e as int);
    congruence::lemma_add_multiple(0, e as int, (q1 * q2) as int);
    lemma_mul_is_commutative(q1 as int, e1 as int);
    lemma_mul_is_commutative(q2 as int, e2 as int);
    lemma_div_by_multiple(e1 as int, q1 as int);
    lemma_div_by_multiple(e2 as int, q2 as int);
    lemma_shift_invertible(a, e1, n, y1, w1);
    lemma_shift_invertible(a, e2, n, y2, w2);
    lemma_pocklington(n, a, qs);
}

proof fn lemma_shift_invertible(a: int, e: nat, n: nat, y: int, w: int)
    requires
        n > 1,
        pow(a, e) % (n as int) == y,
        ((y - 1) * w) % (n as int) == 1,
    ensures
        invertible(pow(a, e) - 1, n),
{
    let m = n as int;
    let x = pow(a, e) - 1;
    lemma_mod_twice(pow(a, e), m);
    congruence::lemma_congruent_sub(pow(a, e), y, 1, 1, m);
    congruence::lemma_congruent_mul(x, y - 1, w, w, m);
    assert((x * w) % m == 1);
}

/// The product of `k` copies of `q`.
pub(crate) proof fn lemma_product_repeated(q: nat, k: nat)
    ensures
        product(Seq::new(k, |i: int| q)) == pow(q as int, k),
        product(Seq::new(k, |i: int| q)) >= 0,
    decreases k,
{
    let s = Seq::new(k, |i: int| q);
    reveal(pow);
    if k > 0 {
        assert(s.drop_last() =~= Seq::new((k - 1) as nat, |i: int| q));
        lemma_product_repeated(q, (k - 1) as nat);
        lemma_mul_is_commutative(q as int, pow(q as int, (k - 1) as nat));
    }
}

/// Proth's criterion: `n - 1 = 2^k * t` with 2^k at least the square root of `n`, and the power
/// `(n - 1) / 2` of `a` is -1.
pub(crate) proof fn lemma_prime_by_two_power(n: nat, a: int, k: nat, f: nat, e: nat, w: int)
    requires
        n > 2,
        k > 0,
        f == pow(2, k),
        ((n - 1) as nat) % f == 0,
        f * f >= n,
        2 * e == n - 1,
        pow(a, e) % (n as int) == n - 1,
        ((n - 2) * w) % (n as int) == 1,
    ensures
        is_prime(n),
{
    let m = n as int;
    let qs = Seq::new(k, |i: int| 2nat);
    lemma_product_repeated(2, k);
    lemma_pow_positive(2, k);
    assert(is_prime(2));
    lemma_pow_adds(a, e, e);
    lemma_small_mod((n - 1) as nat, n);
    congruence::lemma_congruent_mul(pow(a, e), n - 1, pow(a, e), n - 1, m);
    assert((n - 1) * (n - 1) == 1 + (n - 2) * m) by (nonlinear_arith)
        requires
            m == n,
    ;
    congruence::lemma_add_multiple(1, n - 2, m);
    lemma_small_mod(1, n);
    lemma_shift_invertible(a, e, n, n - 1, w);
    assert(((n - 1) as nat) / 2 == e);
    lemma_pocklington(n, a, qs);
}

/// The residue that follows `x` when one more bit of the exponent is taken in: `x` is squared,
/// and multiplied by `y` if the bit is set.
pub open spec fn bit_step(x: int, bit: nat, y: int, n: int) -> int {
    if bit == 0 {
        (x * x) % n
    } else {
        (x * x * y) % n
    }
}

pub(crate) proof fn lemma_bit_step(y: int, n: int, e: nat, bit: nat, x: int)
    requires
        n > 0,
        bit <= 1,
        pow(y, e) % n == x,
    ensures
        pow(y, 2 * e + bit) % n == bit_step(x, bit, y, n),
{
    lemma_multiply_residues(y, n, e, e, x, x);
    if bit == 1 {
        lemma_pow1(y);
        lemma_multiply_residues(y, n, 2 * e, 1, (x * x) % n, y % n);
        lemma_mul_mod_noop(x * x, y, n);
    }
}

/// From the power `e` of `y` to the power whose exponent has the four bits `b` appended.
pub(crate) proof fn lemma_four_bits(
    y: int,
    n: int,
    e: nat,
    b: (nat, nat, nat, nat),
    x0: int,
    x1: int,
    x2: int,
    x3: int,
    x4: int,
)
    requires
        n > 0,
        b.0 <= 1,
        b.1 <= 1,
        b.2 <= 1,
        b.3 <= 1,
        pow(y, e) % n == x0,
        bit_step(x0, b.0, y, n) == x1,
        bit_step(x1, b.1, y, n) == x2,
        bit_step(x2, b.2, y, n) == x3,
        bit_step(x3, b.3, y, n) == x4,
    ensures
        pow(y, 16 * e + 8 * b.0 + 4 * b.1 + 2 * b.2 + b.3) % n == x4,
{
    lemma_bit_step(y, n, e, b.0, x0);
    lemma_bit_step(y, n, 2 * e + b.0, b.1, x1);
    lemma_bit_step(y, n, 4 * e + 2 * b.0 + b.1, b.2, x2);
    lemma_bit_step(y, n, 8 * e + 4 * b.0 + 2 * b.1 + b.2, b.3, x3);
}

/// The power `i + j` from the powers `i` and `j`.
pub(crate) proof fn lemma_multiply_residues(y: int, n: int, i: nat, j: nat, a: int, b: int)
    requires
        n > 0,
        pow(y, i) % n == a,
        pow(y, j) % n == b,
    ensures
        pow(y, i + j) % n == (a * b) % n,
{
    lemma_pow_adds(y, i, j);
    lemma_mul_mod_noop(pow(y, i), pow(y, j), n);
}

/// The power `e * f` of `a` from the power `e` of `a` and the power `f` of its residue.
pub(crate) proof fn lemma_compose_residues(a: int, n: int, e: nat, f: nat, y: int, x: int)
    requires
        n > 0,
        pow(a, e) % n == y,
        pow(y, f) % n == x,
    ensures
        pow(a, e * f) % n == x,
{
    lemma_pow_multiplies(a, e, f);
    lemma_mod_twice(pow(a, e), n);
    congruence::lemma_congruent_pow(pow(a, e), y, f, n);
}

pub(crate) proof fn lemma_first_powers(y: int, n: int)
    requires
        0 <= y < n,
        1 < n,
    ensures
        pow(y, 0) % n == 1,
        pow(y, 1) % n == y,
{
    lemma_pow0(y);
    lemma_pow1(y);
    lemma_small_mod(1, n as nat);
    lemma_small_mod(y as nat, n as nat);
}

} // verus!
