//! Primality of whole numbers by trial division.

use vstd::prelude::*;
use vstd::arithmetic::div_mod::lemma_fundamental_div_mod;

verus! {

/// `n` is a prime: above 1 and divisible by no number between 2 and `n - 1`.
pub open spec fn is_prime_spec(n: int) -> bool {
    n > 1 && forall|d: int| 2 <= d < n ==> #[trigger] (n % d) != 0
}

/// Tells whether `n` is a prime.
pub fn is_prime_integer(n: u64) -> (r: bool)
    ensures
        r == is_prime_spec(n as int),
{
    if n <= 1 {
        return false;
    }
    let mut d: u64 = 2;
    while d <= n / d
        invariant
            2 <= d,
            n > 1,
            forall|k: int| 2 <= k < d ==> #[trigger] ((n as int) % k) != 0,
        decreases n - d,
    {
        proof {
            assert(d <= (n as int) / 2) by (nonlinear_arith)
                requires d <= (n as int) / (d as int), d >= 2, n > 1;
        }
        if n % d == 0 {
            assert((n as int) % (d as int) == 0);
            return false;
        }
        d = d + 1;
    }
    proof {
        assert forall|k: int| 2 <= k < n implies #[trigger] ((n as int) % k) != 0 by {
            if k >= d && (n as int) % k == 0 {
                let q = (n as int) / k;
                lemma_fundamental_div_mod(n as int, k);
                assert(n as int == k * q);
                assert(q >= 2) by (nonlinear_arith)
                    requires n as int == k * q, k < n, k > 0, n > 0;
                assert(d > (n as int) / (d as int));
                assert((n as int) < d * d) by (nonlinear_arith)
                    requires d > (n as int) / (d as int), d > 0, n >= 0;
                assert(q < d) by (nonlinear_arith)
                    requires n as int == k * q, k >= d, (n as int) < d * d, q > 0, d > 0;
                assert((n as int) % q == 0) by (nonlinear_arith)
                    requires n as int == k * q, q > 0;
            }
        }
    }
    true
}

} // verus!
