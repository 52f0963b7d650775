# bls12_field

Arithmetic in the two prime fields of the curve BLS12-377, verified with Verus.

- `Bls12Base` and `Bls12Scalar` hold field elements in Montgomery form. The view of an element is
  the number below the field's order that it stands for, and every operation is specified by what
  it does to that number.
- `limbs` is the arithmetic on arrays of `u64` limbs that both fields are built on, and
  `montgomery` the multiplication.
- `base_laws` and `scalar_laws` prove the laws of a field; `scalar_powers` and `scalar_subgroups`
  cover exponentiation, roots of unity and cyclic subgroups.
- `primes` holds the number theory, and `base_order` and `scalar_order` the certificates that the
  two orders are prime.
- `biguint` states what is relied on of `num::BigUint`.
