//! The one source of chance the rules draw on: a seeded standard generator,
//! read one 64-bit word at a time. The generator turns such a word into a
//! number in `[0, 1)` by keeping its top 53 bits as a fraction of `2^53`;
//! every probability in the rules is a comparison against that fraction, done
//! here in whole numbers.
use rand::rngs::StdRng;
use rand::Rng;
use vstd::prelude::*;

verus! {

#[verifier::external_type_specification]
#[verifier::external_body]
pub struct ExStdRng(StdRng);

/// `Rng::gen::<u64>` on the standard generator: one uniformly drawn 64-bit
/// word, the same word its `gen::<f64>` would consume. Any value can come
/// back, so nothing is claimed of it.
#[verifier::external_body]
pub(crate) fn draw(rng: &mut StdRng) -> u64 {
    rng.gen::<u64>()
}

/// `2^53`: the denominator of the fraction a draw stands for.
pub const UNIT: u64 = 0x20_0000_0000_0000;

/// The numerator of the fraction a draw stands for: its top 53 bits.
pub open spec fn unit(d: u64) -> int {
    (d as int) / 2048
}

/// Whether a draw falls in the first `p / q` of the unit interval.
pub open spec fn below(d: u64, p: int, q: int) -> bool {
    unit(d) * q < p * (UNIT as int)
}

/// `floor(fraction * n)`: a draw scaled onto `0..n`.
pub open spec fn scaled(d: u64, n: int) -> int {
    (unit(d) * n) / (UNIT as int)
}

/// The numerator of the fraction a draw stands for.
pub fn unit_of(d: u64) -> (u: u64)
    ensures
        u == unit(d),
        u < UNIT,
{
    let u = d >> 11u64;
    assert(u == d / 2048 && u < 0x20_0000_0000_0000) by (bit_vector)
        requires
            u == d >> 11u64,
    ;
    u
}

/// Whether a draw falls in the first `p / q` of the unit interval.
pub fn draw_below(d: u64, p: u64, q: u64) -> (r: bool)
    requires
        p <= 0xFFFF_FFFF,
        q <= 0xFFFF_FFFF,
    ensures
        r == below(d, p as int, q as int),
{
    let u = unit_of(d);
    assert((u as int) * (q as int) <= 0x20_0000_0000_0000 * 0xFFFF_FFFF) by (nonlinear_arith)
        requires
            u < 0x20_0000_0000_0000,
            q <= 0xFFFF_FFFF,
    ;
    assert((p as int) * 0x20_0000_0000_0000 <= 0xFFFF_FFFF * 0x20_0000_0000_0000) by (nonlinear_arith)
        requires
            p <= 0xFFFF_FFFF,
    ;
    let uq = (u as u128) * (q as u128);
    let pw = (p as u128) * (UNIT as u128);
    uq < pw
}

/// A draw scaled onto `0..n`, rounded down.
pub fn draw_scaled(d: u64, n: u64) -> (r: u64)
    requires
        n <= 0xFFFF_FFFF,
    ensures
        r == scaled(d, n as int),
        n > 0 ==> r < n,
        n == 0 ==> r == 0,
{
    let u = unit_of(d);
    assert((u as int) * (n as int) <= 0x20_0000_0000_0000 * 0xFFFF_FFFF) by (nonlinear_arith)
        requires
            u < 0x20_0000_0000_0000,
            n <= 0xFFFF_FFFF,
    ;
    let prod = (u as u128) * (n as u128);
    assert(prod / 0x20_0000_0000_0000u128 < n || n == 0) by (nonlinear_arith)
        requires
            prod == (u as int) * (n as int),
            u < 0x20_0000_0000_0000,
    ;
    assert(n == 0 ==> prod == 0) by (nonlinear_arith)
        requires
            prod == (u as int) * (n as int),
    ;
    (prod / (UNIT as u128)) as u64
}

} // verus!
