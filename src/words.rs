//! Little-endian packing of bytes into 32-bit words, and the uppercase
//! hexadecimal rendering of words.
use vstd::prelude::*;
use vstd::string::*;

verus! {

/// Byte `i` of `bytes`, or zero past its end.
pub open spec fn byte_or_zero(bytes: Seq<u8>, i: int) -> u8 {
    if 0 <= i < bytes.len() {
        bytes[i]
    } else {
        0
    }
}

/// The little-endian word made of the four bytes at `bytes[4 * w ..]`,
/// with zeros past the end of `bytes`.
pub open spec fn le_word(bytes: Seq<u8>, w: int) -> u32 {
    (byte_or_zero(bytes, 4 * w) + byte_or_zero(bytes, 4 * w + 1) * 0x100 + byte_or_zero(
        bytes,
        4 * w + 2,
    ) * 0x1_0000 + byte_or_zero(bytes, 4 * w + 3) * 0x100_0000) as u32
}

/// The number of words that `n` bytes fill: n / 4 rounded up.
pub open spec fn word_count(n: int) -> int {
    (n + 3) / 4
}

/// The words that `bytes` packs into, four bytes each in little-endian
/// order, the last word padded with zero bytes.
pub open spec fn le_words(bytes: Seq<u8>) -> Seq<u32> {
    Seq::new(word_count(bytes.len() as int) as nat, |w: int| le_word(bytes, w))
}

/// Byte `i` of `bytes`, or zero past its end.
fn byte_at(bytes: &[u8], i: usize) -> (r: u8)
    ensures
        r == byte_or_zero(bytes@, i as int),
{
    if i < bytes.len() {
        bytes[i]
    } else {
        0
    }
}

/// Packs `bytes` into little-endian words.
pub fn u8_to_u32_array(bytes: &[u8]) -> (r: Vec<u32>)
    ensures
        r@ == le_words(bytes@),
{
    let n: usize = bytes.len();
    let count: usize = n / 4 + if n % 4 == 0 {
        0
    } else {
        1
    };
    assert(count == word_count(n as int));
    let mut r: Vec<u32> = Vec::new();
    let mut w: usize = 0;
    while w < count
        invariant
            n == bytes@.len(),
            count == word_count(n as int),
            w <= count,
            r@.len() == w,
            forall|v: int| 0 <= v < w ==> r@[v] == le_word(bytes@, v),
        decreases count - w,
    {
        let b0: u8 = byte_at(bytes, 4 * w);
        let b1: u8 = byte_at(bytes, 4 * w + 1);
        let b2: u8 = byte_at(bytes, 4 * w + 2);
        let b3: u8 = byte_at(bytes, 4 * w + 3);
        let word: u32 = b0 as u32 + (b1 as u32) * 0x100 + (b2 as u32) * 0x1_0000 + (b3 as u32)
            * 0x100_0000;
        r.push(word);
        w = w + 1;
    }
    assert(r@ =~= le_words(bytes@));
    r
}

/// The sixteen uppercase hexadecimal digits, in order of value.
pub open spec fn hex_digits() -> Seq<char> {
    seq!['0', '1', '2', '3', '4', '5', '6', '7', '8', '9', 'A', 'B', 'C', 'D', 'E', 'F']
}

/// Two uppercase hexadecimal digits for each byte of `bytes`, the high
/// digit first.
pub open spec fn hex_of_bytes(bytes: Seq<u8>) -> Seq<char> {
    Seq::new(
        2 * bytes.len(),
        |i: int|
            if i % 2 == 0 {
                hex_digits()[bytes[i / 2] as int / 16]
            } else {
                hex_digits()[bytes[i / 2] as int % 16]
            },
    )
}

/// Byte `k` (0 is the lowest) of the word `w`.
pub open spec fn word_byte(w: u32, k: int) -> u8 {
    if k == 0 {
        (w % 0x100) as u8
    } else if k == 1 {
        ((w / 0x100) % 0x100) as u8
    } else if k == 2 {
        ((w / 0x1_0000) % 0x100) as u8
    } else {
        (w / 0x100_0000) as u8
    }
}

/// The bytes of `words`, each word in little-endian order.
pub open spec fn le_bytes(words: Seq<u32>) -> Seq<u8> {
    Seq::new(4 * words.len(), |i: int| word_byte(words[i / 4], i % 4))
}

/// The hexadecimal digit of `n` as a one-character string.
fn hex_digit(n: u8) -> (r: &'static str)
    requires
        n < 16,
    ensures
        r@ == seq![hex_digits()[n as int]],
{
    let digits: &'static str = "0123456789ABCDEF";
    proof {
        reveal_strlit("0123456789ABCDEF");
        assert(digits@ =~= hex_digits());
    }
    let r = digits.substring_ascii(n as usize, n as usize + 1);
    assert(r@ =~= seq![hex_digits()[n as int]]);
    r
}

/// Renders `words` as uppercase hexadecimal: each word's bytes in
/// little-endian order, two digits per byte.
pub fn words_to_hex(words: &[u32]) -> (r: String)
    ensures
        r@ == hex_of_bytes(le_bytes(words@)),
{
    let ghost bytes = le_bytes(words@);
    let mut r = String::new();
    let mut w: usize = 0;
    while w < words.len()
        invariant
            bytes == le_bytes(words@),
            w <= words@.len(),
            r@ == hex_of_bytes(bytes.take(4 * w)),
        decreases words@.len() - w,
    {
        let word: u32 = words[w];
        let mut k: usize = 0;
        while k < 4
            invariant
                bytes == le_bytes(words@),
                w < words@.len(),
                word == words@[w as int],
                k <= 4,
                r@ == hex_of_bytes(bytes.take(4 * w + k)),
            decreases 4 - k,
        {
            let byte: u8 = if k == 0 {
                (word % 0x100) as u8
            } else if k == 1 {
                ((word / 0x100) % 0x100) as u8
            } else if k == 2 {
                ((word / 0x1_0000) % 0x100) as u8
            } else {
                (word / 0x100_0000) as u8
            };
            assert(byte == bytes[4 * w + k]);
            r.append(hex_digit(byte / 16));
            r.append(hex_digit(byte % 16));
            assert(r@ =~= hex_of_bytes(bytes.take(4 * w + k + 1)));
            k = k + 1;
        }
        w = w + 1;
    }
    assert(bytes.take(4 * words@.len() as int) =~= bytes);
    r
}

} // verus!
