//! Euclid's greatest common divisor.

use vstd::prelude::*;

verus! {

/// Euclid's recurrence for the greatest common divisor.
pub open spec fn gcd_spec(n: nat, m: nat) -> nat
    decreases m,
{
    if m == 0 {
        n
    } else {
        gcd_spec(m, n % m)
    }
}

/// The recurrence is symmetric in its arguments.
proof fn lemma_gcd_comm(a: nat, b: nat)
    ensures
        gcd_spec(a, b) == gcd_spec(b, a),
{
    if a < b {
        vstd::arithmetic::div_mod::lemma_small_mod(a, b);
    } else if b < a {
        vstd::arithmetic::div_mod::lemma_small_mod(b, a);
    } else if a != 0 {
        vstd::arithmetic::div_mod::lemma_mod_self_0(a as int);
    }
}

/// Euclid's algorithm.  The pair of a zero first argument with a nonzero
/// second would divide by zero and is excluded.
pub fn gcd(n: u64, m: u64) -> (d: u64)
    requires
        n > 0 || m == 0,
    ensures
        d == gcd_spec(n as nat, m as nat),
{
    let mut x = n;
    let mut y = m;
    while y != 0
        invariant
            x > 0 || y == 0,
            gcd_spec(x as nat, y as nat) == gcd_spec(n as nat, m as nat),
        decreases y,
    {
        if y < x {
            proof {
                lemma_gcd_comm(x as nat, y as nat);
            }
            let t = y;
            y = x;
            x = t;
        }
        proof {
            lemma_gcd_comm(x as nat, y as nat);
        }
        y = y % x;
    }
    x
}

} // verus!
