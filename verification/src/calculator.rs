//! The calculator service: sums, primes below a limit, and a running total.

use vstd::arithmetic::div_mod::{lemma_fundamental_div_mod, lemma_mod_multiples_basic};
use vstd::prelude::*;

verus! {

/// `n` is prime: at least 2 and divisible by no number from 2 to `n - 1`.
pub open spec fn prime(n: int) -> bool {
    n >= 2 && forall|d: int| 2 <= d < n ==> #[trigger] (n % d) != 0
}

/// The primes from 2 up to, not including, `limit`, in increasing order.
pub open spec fn primes_below(limit: int) -> Seq<i32>
    decreases limit,
{
    if limit <= 2 {
        Seq::empty()
    } else if prime(limit - 1) {
        primes_below(limit - 1).push((limit - 1) as i32)
    } else {
        primes_below(limit - 1)
    }
}

/// A divisor of `n` at least `i`, where `i * i > n`, has its cofactor below
/// `i`, and that cofactor divides `n` too.
proof fn lemma_small_cofactor(n: int, d: int, i: int)
    requires
        2 <= i <= d < n,
        n % d == 0,
        i * i > n,
    ensures
        2 <= n / d < i,
        n % (n / d) == 0,
{
    let q = n / d;
    lemma_fundamental_div_mod(n, d);
    assert(n == d * q);
    assert(q >= 2) by (nonlinear_arith)
        requires
            n == d * q,
            2 <= d < n,
    {
    }
    assert(q < i) by (nonlinear_arith)
        requires
            n == d * q,
            i * i > n,
            d >= i,
            i >= 2,
            q >= 2,
    {
    }
    lemma_mod_multiples_basic(d, q);
    assert(d * q == q * d) by (nonlinear_arith);
}

/// Whether `n` is prime, trying divisors up to its square root.
pub fn is_prime(n: i32) -> (r: bool)
    ensures
        r == prime(n as int),
{
    if n < 2 {
        return false;
    }
    let mut i: i32 = 2;
    while i <= n / i
        invariant
            2 <= i <= n,
            n >= 2,
            forall|d: int| 2 <= d < i ==> #[trigger] ((n as int) % d) != 0,
        decreases n - i,
    {
        proof {
            assert(i * (n / i) <= n) by (nonlinear_arith)
                requires
                    i >= 2,
                    n >= 2,
            {
                lemma_fundamental_div_mod(n as int, i as int);
            }
            assert(i * i <= n) by (nonlinear_arith)
                requires
                    i <= n / i,
                    i * (n / i) <= n,
                    i >= 2,
            {
            }
            assert(i + 1 <= n) by (nonlinear_arith)
                requires
                    i * i <= n,
                    i >= 2,
            {
            }
        }
        if n % i == 0 {
            assert((n as int) % (i as int) == 0);
            return false;
        }
        i = i + 1;
    }
    proof {
        assert(i * i > n) by (nonlinear_arith)
            requires
                i > n / i,
                i >= 2,
                n >= 2,
        {
            lemma_fundamental_div_mod(n as int, i as int);
        }
        assert forall|d: int| 2 <= d < n implies #[trigger] ((n as int) % d) != 0 by {
            if d >= i && (n as int) % d == 0 {
                lemma_small_cofactor(n as int, d, i as int);
                let q = (n as int) / d;
                assert((n as int) % q != 0);
            }
        }
    }
    true
}

/// The calculator service.
#[derive(Debug, Default)]
pub struct MyCalculator {}

impl MyCalculator {
    /// The sum of `a` and `b`.
    pub fn add(&self, a: i32, b: i32) -> (r: i32)
        requires
            i32::MIN <= a + b <= i32::MAX,
        ensures
            r == a + b,
    {
        a + b
    }

    /// The primes from 2 up to, not including, `limit`, in increasing order.
    pub fn stream_primes(&self, limit: i32) -> (r: Vec<i32>)
        ensures
            r@ == primes_below(limit as int),
    {
        let mut out: Vec<i32> = Vec::new();
        if limit <= 2 {
            return out;
        }
        let mut n: i32 = 2;
        while n < limit
            invariant
                2 <= n <= limit,
                out@ == primes_below(n as int),
            decreases limit - n,
        {
            if is_prime(n) {
                out.push(n);
            }
            n = n + 1;
        }
        out
    }
}

/// A running sum of streamed numbers and how many there were.
#[derive(Clone, Copy, Debug, PartialEq, Eq, Structural)]
pub struct RunningSum {
    pub sum: i32,
    pub count: i32,
}

impl RunningSum {
    /// Nothing received yet.
    pub fn new() -> (r: Self)
        ensures
            r.sum == 0 && r.count == 0,
    {
        RunningSum { sum: 0, count: 0 }
    }

    /// Takes in one more number.
    pub fn add(&mut self, n: i32)
        requires
            i32::MIN <= old(self).sum + n <= i32::MAX,
            old(self).count < i32::MAX,
        ensures
            final(self).sum == old(self).sum + n,
            final(self).count == old(self).count + 1,
    {
        self.sum = self.sum + n;
        self.count = self.count + 1;
    }
}

} // verus!
