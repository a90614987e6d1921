//! The four nonlinear functions of MD5, its per-step tables, and one step
//! of the compression function.
use vstd::prelude::*;

verus! {

/// The additive constant of each of the 64 steps.
pub const ROUND_CONSTANTS: [u32; 64] = [
    0xD76AA478, 0xE8C7B756, 0x242070DB, 0xC1BDCEEE, 0xF57C0FAF, 0x4787C62A, 0xA8304613, 0xFD469501,
    0x698098D8, 0x8B44F7AF, 0xFFFF5BB1, 0x895CD7BE, 0x6B901122, 0xFD987193, 0xA679438E, 0x49B40821,
    0xF61E2562, 0xC040B340, 0x265E5A51, 0xE9B6C7AA, 0xD62F105D, 0x02441453, 0xD8A1E681, 0xE7D3FBC8,
    0x21E1CDE6, 0xC33707D6, 0xF4D50D87, 0x455A14ED, 0xA9E3E905, 0xFCEFA3F8, 0x676F02D9, 0x8D2A4C8A,
    0xFFFA3942, 0x8771F681, 0x6D9D6122, 0xFDE5380C, 0xA4BEEA44, 0x4BDECFA9, 0xF6BB4B60, 0xBEBFBC70,
    0x289B7EC6, 0xEAA127FA, 0xD4EF3085, 0x04881D05, 0xD9D4D039, 0xE6DB99E5, 0x1FA27CF8, 0xC4AC5665,
    0xF4292244, 0x432AFF97, 0xAB9423A7, 0xFC93A039, 0x655B59C3, 0x8F0CCC92, 0xFFEFF47D, 0x85845DD1,
    0x6FA87E4F, 0xFE2CE6E0, 0xA3014314, 0x4E0811A1, 0xF7537E82, 0xBD3AF235, 0x2AD7D2BB, 0xEB86D391,
];

/// The left-rotate amount of each of the 64 steps.
pub const ROTATIONS: [u32; 64] = [
    7, 12, 17, 22, 7, 12, 17, 22, 7, 12, 17, 22, 7, 12, 17, 22, 5, 9, 14, 20, 5, 9, 14, 20, 5, 9,
    14, 20, 5, 9, 14, 20, 4, 11, 16, 23, 4, 11, 16, 23, 4, 11, 16, 23, 4, 11, 16, 23, 6, 10, 15,
    21, 6, 10, 15, 21, 6, 10, 15, 21, 6, 10, 15, 21,
];

/// The index of the block word that feeds each of the 64 steps.
pub const WORD_INDICES: [usize; 64] = [
    0, 1, 2, 3, 4, 5, 6, 7, 8, 9, 10, 11, 12, 13, 14, 15, 1, 6, 11, 0, 5, 10, 15, 4, 9, 14, 3, 8,
    13, 2, 7, 12, 5, 8, 11, 14, 1, 4, 7, 10, 13, 0, 3, 6, 9, 12, 15, 2, 0, 7, 14, 5, 12, 3, 10, 1,
    8, 15, 6, 13, 4, 11, 2, 9,
];

/// F = (b and c) or (not b and d).
pub fn f(b: u32, c: u32, d: u32) -> (r: u32)
    ensures
        r == (b & c) | (!b & d),
{
    (b & c) | (!b & d)
}

/// G = (b and d) or (c and not d).
pub fn g(b: u32, c: u32, d: u32) -> (r: u32)
    ensures
        r == (b & d) | (c & !d),
{
    (b & d) | (c & !d)
}

/// H = b xor c xor d.
pub fn h(b: u32, c: u32, d: u32) -> (r: u32)
    ensures
        r == b ^ c ^ d,
{
    b ^ c ^ d
}

/// I = c xor (b or not d).
pub fn i(b: u32, c: u32, d: u32) -> (r: u32)
    ensures
        r == c ^ (b | !d),
{
    c ^ (b | !d)
}

/// The nonlinear function that a step applies, one for each quarter of the
/// 64 steps.
#[derive(Clone, Copy, PartialEq, Eq, Debug)]
pub enum RoundFn {
    F,
    G,
    H,
    I,
}

/// The function used by step `j`: F for steps 0..16, G for 16..32, H for
/// 32..48 and I for 48..64.
pub open spec fn round_fn_of(j: int) -> RoundFn {
    if j < 16 {
        RoundFn::F
    } else if j < 32 {
        RoundFn::G
    } else if j < 48 {
        RoundFn::H
    } else {
        RoundFn::I
    }
}

/// What `func` computes on the words `b`, `c`, `d`.
pub open spec fn apply_round_fn(func: RoundFn, b: u32, c: u32, d: u32) -> u32 {
    match func {
        RoundFn::F => (b & c) | (!b & d),
        RoundFn::G => (b & d) | (c & !d),
        RoundFn::H => b ^ c ^ d,
        RoundFn::I => c ^ (b | !d),
    }
}

impl RoundFn {
    /// The function used by step `j`.
    pub fn for_step(j: usize) -> (r: RoundFn)
        requires
            j < 64,
        ensures
            r == round_fn_of(j as int),
    {
        if j < 16 {
            RoundFn::F
        } else if j < 32 {
            RoundFn::G
        } else if j < 48 {
            RoundFn::H
        } else {
            RoundFn::I
        }
    }

    /// Applies this function to the words `b`, `c`, `d`.
    pub fn apply(&self, b: u32, c: u32, d: u32) -> (r: u32)
        ensures
            r == apply_round_fn(*self, b, c, d),
    {
        match self {
            RoundFn::F => f(b, c, d),
            RoundFn::G => g(b, c, d),
            RoundFn::H => h(b, c, d),
            RoundFn::I => i(b, c, d),
        }
    }
}

/// Addition modulo 2^32.
pub open spec fn add32(a: u32, b: u32) -> u32 {
    ((a + b) % 0x1_0000_0000) as u32
}

/// Rotation of `x` left by `s` bits; only `s` modulo 32 matters.
pub open spec fn rotl(x: u32, s: u32) -> u32 {
    if s % 32 == 0 {
        x
    } else {
        (x << (s % 32)) | (x >> ((32 - s % 32) as u32))
    }
}

/// Wrapping addition of two words.
pub fn wrapping_add32(a: u32, b: u32) -> (r: u32)
    ensures
        r == add32(a, b),
{
    a.wrapping_add(b)
}

/// Rotates `x` left by `s` bits.
pub fn rotate_left32(x: u32, s: u32) -> (r: u32)
    ensures
        r == rotl(x, s),
{
    let t: u32 = s % 32;
    if t == 0 {
        x
    } else {
        (x << t) | (x >> (32 - t))
    }
}

/// The word that a step computes from the state words `a`, `b`, `c`, `d`,
/// the block word `m`, the constant `k` and the rotation `s`.
pub open spec fn step_word(a: u32, b: u32, c: u32, d: u32, m: u32, k: u32, s: u32, func: RoundFn) -> u32 {
    add32(rotl(add32(add32(add32(a, apply_round_fn(func, b, c, d)), m), k), s), b)
}

/// The state after step `j` of the compression of `block`, from `st`:
/// `(a, b, c, d)` becomes `(d, new_b, b, c)`.
pub open spec fn step_state(st: Seq<u32>, block: Seq<u32>, j: int) -> Seq<u32> {
    let new_b = step_word(
        st[0],
        st[1],
        st[2],
        st[3],
        block[WORD_INDICES@[j] as int],
        ROUND_CONSTANTS@[j],
        ROTATIONS@[j],
        round_fn_of(j),
    );
    seq![st[3], new_b, st[1], st[2]]
}

/// The state after the first `n` steps of the compression of `block`.
pub open spec fn steps(st: Seq<u32>, block: Seq<u32>, n: nat) -> Seq<u32>
    decreases n,
{
    if n == 0 {
        st
    } else {
        step_state(steps(st, block, (n - 1) as nat), block, n - 1)
    }
}

/// The state after all 64 steps of the compression of `block`.
pub open spec fn compress(st: Seq<u32>, block: Seq<u32>) -> Seq<u32> {
    steps(st, block, 64)
}

/// Every word index of the table is below 16.
pub proof fn lemma_word_indices_in_range(j: int)
    requires
        0 <= j < 64,
    ensures
        WORD_INDICES@[j] < 16,
{
}

} // verus!
