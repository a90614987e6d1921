//! The brute-force search for counters whose digest, appended to a key,
//! starts with a run of zero digits.
use vstd::prelude::*;
use vstd::string::StringSliceAdditionalSpecFns;
use crate::engine::{md5_hex, initial_state, zero_block, MD5Context, MAX_MESSAGE_LEN};

verus! {

/// The decimal digits of `n` as ASCII bytes, most significant first, with
/// no leading zero.
pub open spec fn decimal(n: nat) -> Seq<u8>
    decreases n,
{
    if n < 10 {
        seq![(48 + n) as u8]
    } else {
        decimal(n / 10).push((48 + n % 10) as u8)
    }
}

/// The candidate message for `counter`: the key followed by the counter in
/// decimal.
pub open spec fn candidate(key: Seq<u8>, counter: nat) -> Seq<u8> {
    key + decimal(counter)
}

/// Whether `hash` starts with `n` zero digits.
pub open spec fn zero_prefix(hash: Seq<char>, n: nat) -> bool {
    n <= hash.len() && forall|i: int| 0 <= i < n ==> hash[i] == '0'
}

/// Whether the digest of the candidate for `counter` starts with `n` zero
/// digits.
pub open spec fn is_hit(key: Seq<u8>, counter: nat, n: nat) -> bool {
    zero_prefix(md5_hex(candidate(key, counter)), n)
}

/// The counters in `lo .. hi` whose candidate's digest starts with `n` zero
/// digits, in increasing order.
pub open spec fn hits(key: Seq<u8>, lo: nat, hi: nat, n: nat) -> Seq<u32>
    decreases hi,
{
    if hi <= lo {
        Seq::empty()
    } else if is_hit(key, (hi - 1) as nat, n) {
        hits(key, lo, (hi - 1) as nat, n).push((hi - 1) as u32)
    } else {
        hits(key, lo, (hi - 1) as nat, n)
    }
}

/// Ten to the power `k`.
pub open spec fn pow10(k: nat) -> nat
    decreases k,
{
    if k == 0 {
        1
    } else {
        10 * pow10((k - 1) as nat)
    }
}

/// A number below 10^k has at most `k` decimal digits.
pub proof fn lemma_decimal_len(n: nat, k: nat)
    requires
        1 <= k,
        n < pow10(k),
    ensures
        decimal(n).len() <= k,
    decreases n,
{
    if n >= 10 {
        if k == 1 {
            assert(pow10(1) == 10) by {
                reveal_with_fuel(pow10, 2);
            }
        } else {
            lemma_decimal_len(n / 10, (k - 1) as nat);
        }
    }
}

/// Appends the decimal digits of `n` to `out`.
pub fn push_decimal(out: &mut Vec<u8>, n: u32)
    ensures
        final(out)@ == old(out)@ + decimal(n as nat),
    decreases n,
{
    if n >= 10 {
        push_decimal(out, n / 10);
    }
    out.push((48 + n % 10) as u8);
    assert(final(out)@ =~= old(out)@ + decimal(n as nat));
}

/// Whether `hash` starts with `n` zero digits.
pub fn has_zero_prefix(hash: &str, n: usize) -> (r: bool)
    ensures
        r == zero_prefix(hash@, n as nat),
{
    let len: usize = hash.unicode_len();
    if n > len {
        return false;
    }
    let mut i: usize = 0;
    while i < n
        invariant
            n <= len == hash@.len(),
            i <= n,
            forall|j: int| 0 <= j < i ==> hash@[j] == '0',
        decreases n - i,
    {
        if hash.get_char(i) != '0' {
            return false;
        }
        i = i + 1;
    }
    true
}

/// What a scan found: every counter whose digest starts with five zero
/// digits, up to and including the first whose digest starts with six.
pub struct ScanReport {
    /// The counters with five leading zero digits, in increasing order.
    pub fives: Vec<u32>,
    /// The first counter with six leading zero digits, if the scan reached one.
    pub six: Option<u32>,
}

/// Scans the counters from `start` up to `end` (exclusive), each appended in
/// decimal to `key` and hashed on an engine reset between candidates. Stops
/// at the first counter whose digest starts with six zero digits.
pub fn scan(key: &str, start: u32, end: u32) -> (r: ScanReport)
    requires
        key.spec_bytes().len() + 10 <= MAX_MESSAGE_LEN,
    ensures
        match r.six {
            Some(s) => {
                &&& start <= s < end
                &&& is_hit(key.spec_bytes(), s as nat, 6)
                &&& forall|c: nat| start <= c < s ==> !is_hit(key.spec_bytes(), c, 6)
                &&& r.fives@ == hits(key.spec_bytes(), start as nat, s as nat + 1, 5)
            },
            None => {
                &&& forall|c: nat| start <= c < end ==> !is_hit(key.spec_bytes(), c, 6)
                &&& r.fives@ == hits(key.spec_bytes(), start as nat, end as nat, 5)
            },
        },
{
    let ghost kb = key.spec_bytes();
    let key_bytes: &[u8] = key.as_bytes();
    let mut context = MD5Context::new();
    let mut fives: Vec<u32> = Vec::new();
    let mut counter: u32 = start;
    if start >= end {
        return ScanReport { fives, six: None };
    }
    while counter < end
        invariant
            kb == key.spec_bytes(),
            key_bytes@ == kb,
            kb.len() + 10 <= MAX_MESSAGE_LEN,
            start <= counter <= end,
            context.state_words() == initial_state(),
            context.buffer_words() == zero_block(),
            forall|c: nat| start <= c < counter ==> !is_hit(kb, c, 6),
            fives@ == hits(kb, start as nat, counter as nat, 5),
        decreases end - counter,
    {
        let mut message: Vec<u8> = Vec::new();
        let mut b: usize = 0;
        while b < key_bytes.len()
            invariant
                key_bytes@ == kb,
                b <= kb.len(),
                message@ == kb.take(b as int),
            decreases kb.len() - b,
        {
            message.push(key_bytes[b]);
            b = b + 1;
            assert(message@ =~= kb.take(b as int));
        }
        assert(message@ =~= kb);
        push_decimal(&mut message, counter);
        proof {
            assert(pow10(10) == 10_000_000_000) by {
                reveal_with_fuel(pow10, 11);
            }
            lemma_decimal_len(counter as nat, 10);
        }
        assert(message@ == candidate(kb, counter as nat));
        let hash = context.digest_bytes(message.as_slice());
        assert(hash@ == md5_hex(candidate(kb, counter as nat)));
        let five: bool = has_zero_prefix(hash.as_str(), 5);
        if five {
            fives.push(counter);
        }
        let six: bool = has_zero_prefix(hash.as_str(), 6);
        if six {
            proof {
                assert(is_hit(kb, counter as nat, 5));
            }
            return ScanReport { fives, six: Some(counter) };
        }
        context.reset();
        counter = counter + 1;
    }
    ScanReport { fives, six: None }
}

} // verus!
