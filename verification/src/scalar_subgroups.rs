//! Cyclic subgroups of the scalar field's multiplicative group.

use vstd::arithmetic::div_mod::*;
use vstd::arithmetic::mul::*;
use vstd::arithmetic::power::*;
use vstd::arithmetic::power2::*;
use vstd::prelude::*;
use vstd::set_lib::*;

use crate::congruence;
use crate::primes;
use crate::scalar::Bls12Scalar;

verus! {

/// The first `n` powers of `x` are different.
spec fn distinct_powers(x: nat, n: nat) -> bool {
    forall|i: nat, j: nat|
        1 <= i < j <= n ==> #[trigger] Bls12Scalar::power_value(x, i)
            != #[trigger] Bls12Scalar::power_value(x, j)
}

/// There are no more different powers than elements.
proof fn lemma_distinct_powers_bound(x: nat, n: nat)
    requires
        distinct_powers(x, n),
    ensures
        n <= Bls12Scalar::order(),
{
    let m = Bls12Scalar::order() as int;
    let values = Seq::new(n, |k: int| Bls12Scalar::power_value(x, (k + 1) as nat) as int);
    assert forall|i: int, j: int| 0 <= i < n && 0 <= j < n && i != j implies values[i]
        != values[j] by {
        let a = (i + 1) as nat;
        let b = (j + 1) as nat;
        if i < j {
            assert(Bls12Scalar::power_value(x, a) != Bls12Scalar::power_value(x, b));
        } else {
            assert(Bls12Scalar::power_value(x, b) != Bls12Scalar::power_value(x, a));
        }
    }
    assert(values.no_duplicates());
    values.unique_seq_to_set();
    lemma_int_range(0, m);
    assert forall|v: int| values.to_set().contains(v) implies set_int_range(0, m).contains(v) by {
        let k = choose|k: int| 0 <= k < n && values[k] == v;
        Bls12Scalar::lemma_power_value(x, (k + 1) as nat);
    }
    lemma_len_subset(values.to_set(), set_int_range(0, m));
}

/// The next power is the power times the element.
proof fn lemma_next_power(g: Bls12Scalar, n: nat)
    ensures
        (Bls12Scalar::power_value(g@, n) * g@) % Bls12Scalar::order() == Bls12Scalar::power_value(
            g@,
            n + 1,
        ),
{
    Bls12Scalar::law_first_powers(g);
    Bls12Scalar::law_powers_multiply(g@, n, 1);
}

/// Equal powers of an element other than zero come from equal powers one step before.
proof fn lemma_previous_powers(g: Bls12Scalar, i: nat, j: nat)
    requires
        g@ != 0,
        Bls12Scalar::power_value(g@, i + 1) == Bls12Scalar::power_value(g@, j + 1),
    ensures
        Bls12Scalar::power_value(g@, i) == Bls12Scalar::power_value(g@, j),
{
    let m = Bls12Scalar::order();
    let a = Bls12Scalar::power_value(g@, i);
    let b = Bls12Scalar::power_value(g@, j);
    lemma_next_power(g, i);
    lemma_next_power(g, j);
    Bls12Scalar::lemma_power_value(g@, i);
    Bls12Scalar::lemma_power_value(g@, j);
    Bls12Scalar::law_order_prime();
    Bls12Scalar::law_value_range(g);
    lemma_small_mod(g@, m);
    let inverse = primes::lemma_prime_inverse(g@, m);
    congruence::lemma_congruent_cancel(a as int, b as int, g@ as int, inverse as int, m as int);
    congruence::lemma_small_residues(a as int, b as int, m as int);
}

/// One more power is different from those before as long as the element does not come back.
proof fn lemma_more_distinct_powers(g: Bls12Scalar, n: nat)
    requires
        distinct_powers(g@, n),
        n > 0,
        Bls12Scalar::power_value(g@, n + 1) != g@,
    ensures
        distinct_powers(g@, n + 1),
{
    Bls12Scalar::law_first_powers(g);
    if g@ == 0 {
        lemma_next_power(g, n);
        lemma_mul_basics(Bls12Scalar::power_value(g@, n) as int);
        lemma_small_mod(0, Bls12Scalar::order());
    }
    assert forall|i: nat, j: nat| 1 <= i < j <= n + 1 implies #[trigger] Bls12Scalar::power_value(
        g@,
        i,
    ) != #[trigger] Bls12Scalar::power_value(g@, j) by {
        if j == n + 1 && i > 1 && Bls12Scalar::power_value(g@, i) == Bls12Scalar::power_value(
            g@,
            j,
        ) {
            lemma_previous_powers(g, (i - 1) as nat, n);
            assert(Bls12Scalar::power_value(g@, (i - 1) as nat) != Bls12Scalar::power_value(
                g@,
                n,
            ));
        }
    }
}

/// Where the element comes back after `n` different powers, `n` is its order.
proof fn lemma_order_found(g: Bls12Scalar, n: nat)
    requires
        g@ != 0,
        n > 0,
        distinct_powers(g@, n),
        Bls12Scalar::power_value(g@, n + 1) == g@,
    ensures
        Bls12Scalar::has_order(g@, n),
{
    Bls12Scalar::law_first_powers(g);
    lemma_previous_powers(g, n, 0);
    assert forall|j: nat| 0 < j < n implies #[trigger] Bls12Scalar::power_value(g@, j) != 1 by {
        if Bls12Scalar::power_value(g@, j) == 1 {
            lemma_next_power(g, j);
            lemma_next_power(g, 0);
            assert(Bls12Scalar::power_value(g@, 1) != Bls12Scalar::power_value(g@, j + 1));
        }
    }
}

/// Where each entry is the one before times the element, the entries are powers.
proof fn lemma_walk(g: Bls12Scalar, s: Seq<Bls12Scalar>, i: int)
    requires
        g.wf(),
        0 <= i < s.len(),
        s[0] == g,
        forall|j: int|
            0 < j < s.len() ==> (#[trigger] s[j]).wf() && s[j]@ == (s[j - 1]@ * g@)
                % Bls12Scalar::order(),
    ensures
        s[i].wf(),
        s[i]@ == Bls12Scalar::power_value(g@, (i + 1) as nat),
    decreases i,
{
    Bls12Scalar::law_first_powers(g);
    if i > 0 {
        lemma_walk(g, s, i - 1);
        lemma_next_power(g, i as nat);
    }
}

/// A power of an element is 1 where the power of its inverse is.
proof fn lemma_inverse_power(x: nat, y: nat, j: nat)
    requires
        (x * y) % Bls12Scalar::order() == 1,
    ensures
        Bls12Scalar::power_value(x, j) == 1 <==> Bls12Scalar::power_value(y, j) == 1,
{
    let m = Bls12Scalar::order();
    let a = pow(x as int, j);
    let b = pow(y as int, j);
    lemma_small_mod(1, m);
    Bls12Scalar::lemma_power_value(x, j);
    Bls12Scalar::lemma_power_value(y, j);
    congruence::lemma_congruent_pow((x * y) as int, 1, j, m as int);
    lemma1_pow(j);
    lemma_pow_distributes(x as int, y as int, j);
    // a b is 1
    if a % (m as int) == 1 {
        congruence::lemma_congruent_mul(a, 1, b, b, m as int);
        lemma_mul_basics(b);
    }
    if b % (m as int) == 1 {
        congruence::lemma_congruent_mul(a, a, b, 1, m as int);
        lemma_mul_basics(a);
    }
}

impl Bls12Scalar {
    /// The powers of the generator, from the first one on, up to where a power would occur again.
    /// The first one to occur again is the generator itself.
    pub fn cyclic_subgroup_unknown_order(generator: Bls12Scalar) -> (r: Vec<Bls12Scalar>)
        requires
            generator.wf(),
        ensures
            r@.len() > 0,
            Bls12Scalar::are_powers(r@, generator@),
            r@.no_duplicates(),
            Bls12Scalar::power_value(generator@, r@.len() + 1) == generator@,
            generator@ == 0 ==> r@.len() == 1,
            generator@ != 0 ==> Bls12Scalar::has_order(generator@, r@.len()),
            r@[0] == generator,
            forall|i: int|
                0 <= i < r@.len() ==> (#[trigger] r@[i]).wf() && r@[i]@ == pow(
                    generator@ as int,
                    (i + 1) as nat,
                ) % (Bls12Scalar::order() as int),
            forall|i: int|
                0 < i < r@.len() ==> (#[trigger] r@[i])@ == (r@[i - 1]@ * generator@)
                    % Bls12Scalar::order(),
            generator@ != 0 ==> pow(generator@ as int, r@.len()) % (Bls12Scalar::order() as int)
                == 1,
            generator@ != 0 ==> (forall|j: nat|
                0 < j < r@.len() ==> #[trigger] pow(generator@ as int, j) % (
                Bls12Scalar::order() as int) != 1),
    {
        let mut subgroup: Vec<Bls12Scalar> = Vec::new();
        let mut current = generator;
        proof {
            Bls12Scalar::law_first_powers(generator);
        }
        loop
            invariant_except_break
                distinct_powers(generator@, subgroup@.len() + 1),
                generator@ == 0 ==> subgroup@.len() == 0,
            invariant
                generator.wf(),
                current.wf(),
                current@ == Bls12Scalar::power_value(generator@, subgroup@.len() + 1),
                Bls12Scalar::are_powers(subgroup@, generator@),
            ensures
                subgroup@.len() > 0,
                current == generator,
                distinct_powers(generator@, subgroup@.len()),
                generator@ == 0 ==> subgroup@.len() == 1,
            decreases Bls12Scalar::order() - subgroup@.len(),
        {
            let ghost n = subgroup@.len() + 1;
            proof {
                lemma_distinct_powers_bound(generator@, n);
                lemma_next_power(generator, n);
            }
            subgroup.push(current);
            current = current * generator;
            if current == generator {
                break;
            }
            proof {
                if current@ == generator@ {
                    Bls12Scalar::law_representation_unique(current, generator);
                }
                lemma_more_distinct_powers(generator, n);
                if generator@ == 0 {
                    lemma_mul_basics(Bls12Scalar::power_value(generator@, n) as int);
                    lemma_small_mod(0, Bls12Scalar::order());
                }
            }
        }
        proof {
            if generator@ != 0 {
                lemma_order_found(generator, subgroup@.len());
                Bls12Scalar::law_has_order(generator@, subgroup@.len());
            }
            Bls12Scalar::law_are_powers(subgroup@, generator@);
            Bls12Scalar::law_subgroup_walk(generator, subgroup@);
            assert forall|i: int, j: int|
                0 <= i < subgroup@.len() && 0 <= j < subgroup@.len() && i != j implies subgroup@[i]
                != subgroup@[j] by {
                let a = (i + 1) as nat;
                let b = (j + 1) as nat;
                if i < j {
                    assert(Bls12Scalar::power_value(generator@, a) != Bls12Scalar::power_value(
                        generator@,
                        b,
                    ));
                } else {
                    assert(Bls12Scalar::power_value(generator@, b) != Bls12Scalar::power_value(
                        generator@,
                        a,
                    ));
                }
            }
        }
        subgroup
    }

    /// The first `order` powers of the generator.
    pub fn cyclic_subgroup_known_order(generator: Bls12Scalar, order: usize) -> (r: Vec<
        Bls12Scalar,
    >)
        requires
            generator.wf(),
        ensures
            r@.len() == order,
            Bls12Scalar::are_powers(r@, generator@),
            order > 0 ==> r@[0] == generator,
            forall|i: int|
                0 <= i < r@.len() ==> (#[trigger] r@[i]).wf() && r@[i]@ == pow(
                    generator@ as int,
                    (i + 1) as nat,
                ) % (Bls12Scalar::order() as int),
            forall|i: int|
                0 < i < r@.len() ==> (#[trigger] r@[i])@ == (r@[i - 1]@ * generator@)
                    % Bls12Scalar::order(),
    {
        let mut subgroup: Vec<Bls12Scalar> = Vec::new();
        let mut current = generator;
        proof {
            Bls12Scalar::law_first_powers(generator);
        }
        let mut i: usize = 0;
        while i < order
            invariant
                i <= order,
                subgroup@.len() == i,
                generator.wf(),
                current.wf(),
                current@ == Bls12Scalar::power_value(generator@, (i + 1) as nat),
                Bls12Scalar::are_powers(subgroup@, generator@),
            decreases order - i,
        {
            proof {
                lemma_next_power(generator, (i + 1) as nat);
            }
            subgroup.push(current);
            current = current * generator;
            i = i + 1;
        }
        proof {
            Bls12Scalar::law_are_powers(subgroup@, generator@);
            Bls12Scalar::law_subgroup_walk(generator, subgroup@);
        }
        subgroup
    }

    /// How many different powers the generator has: for an element other than zero, its order.
    pub fn generator_order(generator: Bls12Scalar) -> (r: usize)
        requires
            generator.wf(),
        ensures
            generator@ == 0 ==> r == 1,
            generator@ != 0 ==> Bls12Scalar::has_order(generator@, r as nat),
            generator@ != 0 ==> r > 0 && pow(generator@ as int, r as nat) % (
            Bls12Scalar::order() as int) == 1,
            generator@ != 0 ==> (forall|j: nat|
                0 < j < r ==> #[trigger] pow(generator@ as int, j) % (Bls12Scalar::order() as int)
                    != 1),
    {
        Bls12Scalar::cyclic_subgroup_unknown_order(generator).len()
    }

    /// The first entry of a list of powers is the element itself, and each further entry is the one
    /// before times the element. A list of reduced entries with these two properties is the list
    /// of powers.
    pub proof fn law_subgroup_walk(g: Bls12Scalar, s: Seq<Bls12Scalar>)
        requires
            g.wf(),
        ensures
            Bls12Scalar::are_powers(s, g@) <==> {
                &&& s.len() > 0 ==> s[0] == g
                &&& forall|i: int|
                    0 < i < s.len() ==> (#[trigger] s[i]).wf() && s[i]@ == (s[i - 1]@ * g@)
                        % Bls12Scalar::order()
            },
    {
        Bls12Scalar::law_first_powers(g);
        if Bls12Scalar::are_powers(s, g@) {
            if s.len() > 0 {
                Bls12Scalar::law_representation_unique(s[0], g);
            }
            assert forall|i: int| 0 < i < s.len() implies (#[trigger] s[i]).wf() && s[i]@ == (s[i
                - 1]@ * g@) % Bls12Scalar::order() by {
                lemma_next_power(g, i as nat);
                assert(s[i - 1]@ == Bls12Scalar::power_value(g@, i as nat));
            }
        }
        if (s.len() > 0 ==> s[0] == g) && (forall|i: int|
            0 < i < s.len() ==> (#[trigger] s[i]).wf() && s[i]@ == (s[i - 1]@ * g@)
                % Bls12Scalar::order()) {
            assert forall|i: int| 0 <= i < s.len() implies (#[trigger] s[i]).wf() && s[i]@
                == Bls12Scalar::power_value(g@, (i + 1) as nat) by {
                lemma_walk(g, s, i);
            }
        }
    }

    /// An element and its inverse have the same order.
    pub proof fn law_inverse_order(x: nat, y: nat, k: nat)
        requires
            (x * y) % Bls12Scalar::order() == 1,
            Bls12Scalar::has_order(x, k),
        ensures
            Bls12Scalar::has_order(y, k),
    {
        lemma_inverse_power(x, y, k);
        assert forall|j: nat| 0 < j < k implies #[trigger] Bls12Scalar::power_value(y, j) != 1 by {
            lemma_inverse_power(x, y, j);
            assert(Bls12Scalar::power_value(x, j) != 1);
        }
    }

    /// Two lists of the first powers of an element agree if they are equally long, so the subgroup
    /// of a known order is the one that is found without knowing the order.
    pub proof fn law_subgroups_agree(x: nat, s: Seq<Bls12Scalar>, t: Seq<Bls12Scalar>)
        requires
            Bls12Scalar::are_powers(s, x),
            Bls12Scalar::are_powers(t, x),
            s.len() == t.len(),
        ensures
            s == t,
    {
        assert forall|i: int| 0 <= i < s.len() implies s[i] == t[i] by {
            Bls12Scalar::law_representation_unique(s[i], t[i]);
        }
        assert(s =~= t);
    }

    /// The powers up to the order hold 1, and with two elements their product.
    pub proof fn law_subgroup_closed(x: nat, s: Seq<Bls12Scalar>, i: int, j: int)
        requires
            Bls12Scalar::are_powers(s, x),
            Bls12Scalar::has_order(x, s.len()),
            0 <= i < s.len(),
            0 <= j < s.len(),
        ensures
            s.contains(Bls12Scalar::of_value(1)),
            s.contains(Bls12Scalar::product_of(s[i], s[j])),
    {
        let n = s.len();
        let m = Bls12Scalar::order();
        let e = (i + 1 + j + 1) as nat;
        lemma_small_mod(1, m);
        Bls12Scalar::lemma_is_of_value(s[n - 1], 1);
        Bls12Scalar::law_powers_multiply(x, (i + 1) as nat, (j + 1) as nat);
        if e <= n {
            Bls12Scalar::lemma_is_of_value(s[e - 1], s[i]@ * s[j]@);
        } else {
            let rest = (e - n) as nat;
            Bls12Scalar::law_powers_multiply(x, n, rest);
            Bls12Scalar::lemma_power_value(x, rest);
            lemma_mul_basics(Bls12Scalar::power_value(x, rest) as int);
            lemma_small_mod(Bls12Scalar::power_value(x, rest), m);
            Bls12Scalar::lemma_is_of_value(s[rest - 1], s[i]@ * s[j]@);
        }
    }

    /// The subgroup that a root of unity generates has the order of the root.
    pub proof fn law_root_generates(n: nat, k: nat)
        requires
            n <= Bls12Scalar::TWO_ADICITY,
            Bls12Scalar::has_order(Bls12Scalar::root_value(n), k),
        ensures
            k == pow2(n),
    {
        Bls12Scalar::law_root_is_primitive(n);
        Bls12Scalar::law_order_unique(Bls12Scalar::root_value(n), k, pow2(n));
    }
}

} // verus!
