use vstd::prelude::*;

use crate::error::ConfigurationError;

verus! {

/// One step of a linear congruential generator: `(a * x + c) mod m`.
pub open spec fn lcg_step(a: int, x: int, c: int, m: int) -> int {
    (a * x + c) % m
}

/// `base` raised to `exponent`.
pub open spec fn power(base: int, exponent: nat) -> int
    decreases exponent,
{
    if exponent == 0 {
        1
    } else {
        base * power(base, (exponent - 1) as nat)
    }
}

/// An exact value `numerator / denominator` of the unit interval.
#[derive(Debug, Clone, Copy, PartialEq, Eq, Structural)]
pub struct UnitValue {
    pub numerator: u64,
    pub denominator: u64,
}

impl UnitValue {
    /// The value lies in `[0, 1)`: `0 <= numerator < denominator`.
    pub open spec fn in_unit_interval(&self) -> bool {
        self.numerator < self.denominator
    }
}

/// A deterministic stream of uniform values in `[0, 1)`, produced by a
/// linear congruential generator with state `x` and parameters `a`, `c`, `m`.
#[derive(Debug)]
pub struct RandomNumberGenerator {
    current: i64,
    multiplier: i64,
    increment: i64,
    modulus: i64,
}

impl RandomNumberGenerator {
    /// The current state `x`.
    pub closed spec fn state(&self) -> int {
        self.current as int
    }

    /// The multiplier `a`.
    pub closed spec fn multiplier(&self) -> int {
        self.multiplier as int
    }

    /// The increment `c`.
    pub closed spec fn increment(&self) -> int {
        self.increment as int
    }

    /// The modulus `m`.
    pub closed spec fn modulus(&self) -> int {
        self.modulus as int
    }

    /// `0 <= x < m`, with `m` positive.
    pub open spec fn well_formed(&self) -> bool {
        0 < self.modulus() && 0 <= self.state() < self.modulus()
    }

    /// The state that the next draw moves to.
    pub open spec fn next_state(&self) -> int {
        lcg_step(self.multiplier(), self.state(), self.increment(), self.modulus())
    }

    /// The value that the next draw returns: `x' / m`.
    pub open spec fn next_draw(&self) -> UnitValue {
        UnitValue { numerator: self.next_state() as u64, denominator: self.modulus() as u64 }
    }

    /// The generator after one draw: same parameters, state `x'`.
    pub closed spec fn successor(&self) -> RandomNumberGenerator {
        RandomNumberGenerator {
            current: self.next_state() as i64,
            multiplier: self.multiplier,
            increment: self.increment,
            modulus: self.modulus,
        }
    }

    /// Facts about the generator after one draw.
    pub proof fn lemma_successor(&self)
        requires
            self.well_formed(),
        ensures
            self.successor().well_formed(),
            self.successor().state() == self.next_state(),
            self.successor().multiplier() == self.multiplier(),
            self.successor().increment() == self.increment(),
            self.successor().modulus() == self.modulus(),
            0 <= self.next_state() < self.modulus(),
            self.next_draw().in_unit_interval(),
    {
    }

    /// A generator is determined by its state and its parameters.
    pub proof fn lemma_determined(g: RandomNumberGenerator, h: RandomNumberGenerator)
        requires
            g.state() == h.state(),
            g.multiplier() == h.multiplier(),
            g.increment() == h.increment(),
            g.modulus() == h.modulus(),
        ensures
            g == h,
    {
    }

    /// Builds a stream from the seed `x0` and the parameters `a`, `c`, `m`.
    /// The seed is kept as `x0 mod m`, which leaves every draw unchanged.
    pub fn new(starting_value: i64, multiplier: i64, increment: i64, modulus: i64) -> (r: Result<
        RandomNumberGenerator,
        ConfigurationError,
    >)
        ensures
            modulus <= 0 <==> r is Err,
            r matches Err(e) ==> e == ConfigurationError::ModulusNotPositive,
            r matches Ok(g) ==> {
                &&& g.well_formed()
                &&& g.state() == starting_value as int % modulus as int
                &&& g.multiplier() == multiplier as int
                &&& g.increment() == increment as int
                &&& g.modulus() == modulus as int
            },
    {
        if modulus <= 0 {
            return Err(ConfigurationError::ModulusNotPositive);
        }
        let start = match starting_value.checked_rem_euclid(modulus) {
            Some(s) => s,
            None => { return Err(ConfigurationError::ModulusNotPositive); },
        };
        Ok(RandomNumberGenerator { current: start, multiplier, increment, modulus })
    }

    /// Advances the state to `x' = (a * x + c) mod m` and returns `x' / m`,
    /// which lies in `[0, 1)`.
    pub fn get_next_number(&mut self) -> (u: UnitValue)
        requires
            old(self).well_formed(),
        ensures
            *final(self) == old(self).successor(),
            final(self).well_formed(),
            u == old(self).next_draw(),
            u.numerator == old(self).next_state(),
            u.denominator == old(self).modulus(),
            u.in_unit_interval(),
    {
        proof {
            self.lemma_successor();
        }
        let a = self.multiplier as i128;
        let x = self.current as i128;
        assert(-0x8000_0000_0000_0000 * 0x8000_0000_0000_0000 <= a * x <= 0x8000_0000_0000_0000
            * 0x8000_0000_0000_0000) by (nonlinear_arith)
            requires
                -0x8000_0000_0000_0000 <= a <= 0x7fff_ffff_ffff_ffff,
                0 <= x <= 0x7fff_ffff_ffff_ffff,
        ;
        let product = a * x;
        let value = product + self.increment as i128;
        let next = match value.checked_rem_euclid(self.modulus as i128) {
            Some(n) => n,
            None => {
                assert(false);
                0
            },
        };
        self.current = next as i64;
        UnitValue { numerator: next as u64, denominator: self.modulus as u64 }
    }
}

/// `base` raised to `power`; a negative power gives one, as an empty product.
pub fn pow(base: i64, power: i64) -> (r: i64)
    requires
        power <= 0 || i64::MIN <= crate::random_number::power(base as int, power as nat)
            <= i64::MAX,
    ensures
        power <= 0 ==> r == 1,
        power > 0 ==> r == crate::random_number::power(base as int, power as nat),
{
    let mut val: i64 = 1;
    let mut i: i64 = 0;
    while i < power
        invariant
            0 <= i,
            power <= 0 ==> i == 0,
            power > 0 ==> i <= power,
            power > 0 ==> i64::MIN <= crate::random_number::power(base as int, power as nat) <= i64::MAX,
            val == crate::random_number::power(base as int, i as nat),
        decreases power - i,
    {
        proof {
            lemma_power_bounded(base as int, (i + 1) as nat, power as nat);
            assert(crate::random_number::power(base as int, (i + 1) as nat) == base * val);
        }
        val = val * base;
        i = i + 1;
    }
    val
}

/// The magnitude of `base^i` never exceeds that of `base^n` for `0 < i <= n`
/// (for `base == 0` the powers past the zeroth are all zero).
proof fn lemma_power_bounded(base: int, i: nat, n: nat)
    requires
        0 < i <= n,
        i64::MIN <= power(base, n) <= i64::MAX,
    ensures
        i64::MIN <= power(base, i) <= i64::MAX,
    decreases n - i,
{
    if i < n {
        lemma_power_bounded(base, (i + 1) as nat, n);
        let p = power(base, i);
        let q = power(base, (i + 1) as nat);
        assert(q == base * p);
        if base == 0 {
            assert(p == base * power(base, (i - 1) as nat));
        } else if base == 1 || base == -1 {
            lemma_unit_power(base, i);
        } else {
            assert(base * base >= 4) by (nonlinear_arith)
                requires
                    base != 0 && base != 1 && base != -1,
            ;
            assert(4 * p * p <= q * q) by (nonlinear_arith)
                requires
                    q == base * p,
                    base * base >= 4,
            ;
            assert(i64::MIN <= p <= i64::MAX) by (nonlinear_arith)
                requires
                    4 * p * p <= q * q,
                    i64::MIN <= q <= i64::MAX,
            ;
        }
    }
}

/// Every power of one or of minus one is one or minus one.
proof fn lemma_unit_power(base: int, n: nat)
    requires
        base == 1 || base == -1,
    ensures
        power(base, n) == 1 || power(base, n) == -1,
    decreases n,
{
    if n > 0 {
        lemma_unit_power(base, (n - 1) as nat);
    }
}

} // verus!
