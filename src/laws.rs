//! Properties that relate several operations of the engine.
use vstd::prelude::*;
use crate::engine::{
    digest_hex, encode_block, initial_state, md5_hex, zero_block, MD5Context, MAX_MESSAGE_LEN,
};
use crate::rounds::compress;
use crate::words::{le_words, word_count};

verus! {

/// Hashing `m` on a new engine, resetting it, and hashing `m` again gives
/// the same digest both times, `md5_hex(m)`: whatever an engine held
/// before, once it is in the condition that `new` and `reset` both
/// guarantee (initial state, zero block), the digest that `digest` returns
/// for `m` is determined, and the new state and block it leaves are too.
pub proof fn lemma_digest_repeats_after_reset(fresh: MD5Context, reset: MD5Context, m: Seq<u8>)
    requires
        m.len() <= MAX_MESSAGE_LEN,
        fresh.state_words() == initial_state(),
        fresh.buffer_words() == zero_block(),
        reset.state_words() == initial_state(),
        reset.buffer_words() == zero_block(),
    ensures
        ({
            let first_block = encode_block(fresh.buffer_words(), m);
            let first_state = compress(fresh.state_words(), first_block);
            let second_block = encode_block(reset.buffer_words(), m);
            let second_state = compress(reset.state_words(), second_block);
            &&& first_block == second_block
            &&& first_state == second_state
            &&& digest_hex(first_state) == digest_hex(second_state)
            &&& digest_hex(first_state) == md5_hex(m)
        }),
{
}

/// Without a reset between them, the digest of `m2` after that of `m1`
/// compresses a block encoded over the block of `m1` (and starts from the
/// state that `m1` left). That block is the one a new engine would compress
/// for `m2` exactly when the words of `m1`'s block that `m2` does not
/// overwrite are zero.
pub proof fn lemma_block_without_reset(m1: Seq<u8>, m2: Seq<u8>)
    requires
        m1.len() <= MAX_MESSAGE_LEN,
        m2.len() <= MAX_MESSAGE_LEN,
    ensures
        ({
            let block1 = encode_block(zero_block(), m1);
            encode_block(block1, m2) == encode_block(zero_block(), m2) <==> (forall|w: int|
                word_count(m2.len() + 1int) <= w < 14 ==> block1[w] == 0)
        }),
{
    let block1 = encode_block(zero_block(), m1);
    let block2 = encode_block(block1, m2);
    let fresh2 = encode_block(zero_block(), m2);
    assert(le_words(m2.push(0x80u8)).len() == word_count(m2.len() + 1int));
    if forall|w: int| word_count(m2.len() + 1int) <= w < 14 ==> block1[w] == 0 {
        assert(block2 =~= fresh2);
    }
    if block2 == fresh2 {
        assert forall|w: int| word_count(m2.len() + 1int) <= w < 14 implies block1[w] == 0 by {
            assert(block2[w] == fresh2[w]);
        }
    }
}

/// A message, its 0x80 terminator and its two length words fit in one
/// sixteen-word block exactly when the message has at most 55 bytes: the
/// packed message words then end before word 14, where the length goes.
pub proof fn lemma_single_block_bound(n: nat)
    ensures
        word_count(n + 1int) <= 14 <==> n <= MAX_MESSAGE_LEN,
{
}

} // verus!
