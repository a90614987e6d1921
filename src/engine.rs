//! The single-block MD5 engine: a running digest state of four words and
//! an input block of sixteen words.
use vstd::prelude::*;
use vstd::string::StringSliceAdditionalSpecFns;
use crate::rounds::{
    add32, compress, lemma_word_indices_in_range, rotate_left32, step_word, steps, wrapping_add32,
    RoundFn, ROTATIONS, ROUND_CONSTANTS, WORD_INDICES,
};
use crate::words::{hex_of_bytes, le_bytes, le_words, u8_to_u32_array, words_to_hex};

verus! {

/// The longest message that fits, with its padding and its length, in
/// one block.
pub const MAX_MESSAGE_LEN: usize = 55;

/// The digest state that every computation starts from.
pub const INITIAL_STATE: [u32; 4] = [0x67452301, 0xEFCDAB89, 0x98BADCFE, 0x10325476];

/// The four initial words A, B, C, D.
pub open spec fn initial_state() -> Seq<u32> {
    seq![0x67452301u32, 0xEFCDAB89u32, 0x98BADCFEu32, 0x10325476u32]
}

/// Sixteen zero words: the input block of a new or reset engine.
pub open spec fn zero_block() -> Seq<u32> {
    Seq::new(16, |w: int| 0u32)
}

/// The input block after `msg` is encoded over `old`: the words of `msg`
/// followed by the byte 0x80, packed little-endian, then the bit length of
/// `msg` in word 14 and its high half (zero) in word 15. The other words
/// keep their value in `old`.
pub open spec fn encode_block(old: Seq<u32>, msg: Seq<u8>) -> Seq<u32> {
    let words = le_words(msg.push(0x80u8));
    Seq::new(
        16,
        |w: int|
            if w == 14 {
                (msg.len() * 8) as u32
            } else if w == 15 {
                0u32
            } else if w < words.len() {
                words[w]
            } else {
                old[w]
            },
    )
}

/// The state words after the initial words are added back, modulo 2^32.
pub open spec fn feed_forward(st: Seq<u32>) -> Seq<u32> {
    Seq::new(4, |w: int| add32(st[w], initial_state()[w]))
}

/// The hexadecimal digest that the state `st` gives.
pub open spec fn digest_hex(st: Seq<u32>) -> Seq<char> {
    hex_of_bytes(le_bytes(feed_forward(st)))
}

/// The MD5 digest of `msg`, computed from a new engine.
pub open spec fn md5_hex(msg: Seq<u8>) -> Seq<char> {
    digest_hex(compress(initial_state(), encode_block(zero_block(), msg)))
}

/// The running state of a single-block MD5 computation. A digest does not
/// clear the engine: the next digest starts from the state and block that
/// the last one left, unless `reset` is called between them.
pub struct MD5Context {
    buffer: [u32; 16],
    state: [u32; 4],
}

impl MD5Context {
    /// The four digest state words A, B, C, D.
    pub closed spec fn state_words(&self) -> Seq<u32> {
        self.state@
    }

    /// The sixteen words of the input block.
    pub closed spec fn buffer_words(&self) -> Seq<u32> {
        self.buffer@
    }

    /// A new engine: initial state and an all-zero block.
    pub fn new() -> (r: MD5Context)
        ensures
            r.state_words() == initial_state(),
            r.buffer_words() == zero_block(),
    {
        let r = MD5Context { buffer: [0u32; 16], state: INITIAL_STATE };
        assert(r.state@ =~= initial_state());
        assert(r.buffer@ =~= zero_block());
        r
    }

    /// Encodes `message`, compresses the block into the state and returns the
    /// digest as 32 uppercase hexadecimal digits. The state is not reset
    /// first.
    pub fn digest(&mut self, message: &str) -> (r: String)
        requires
            message.spec_bytes().len() <= MAX_MESSAGE_LEN,
        ensures
            final(self).buffer_words() == encode_block(old(self).buffer_words(), message.spec_bytes()),
            final(self).state_words() == compress(old(self).state_words(), final(self).buffer_words()),
            r@ == digest_hex(final(self).state_words()),
    {
        self.digest_bytes(message.as_bytes())
    }

    /// `digest` on a message given as bytes.
    pub fn digest_bytes(&mut self, message: &[u8]) -> (r: String)
        requires
            message@.len() <= MAX_MESSAGE_LEN,
        ensures
            final(self).buffer_words() == encode_block(old(self).buffer_words(), message@),
            final(self).state_words() == compress(old(self).state_words(), final(self).buffer_words()),
            r@ == digest_hex(final(self).state_words()),
    {
        self.encode_message(message);
        self.transform();
        self.finalize()
    }

    /// Restores the initial state and clears the block.
    pub fn reset(&mut self)
        ensures
            final(self).state_words() == initial_state(),
            final(self).buffer_words() == zero_block(),
    {
        self.buffer = [0u32; 16];
        self.state = INITIAL_STATE;
        assert(self.state@ =~= initial_state());
        assert(self.buffer@ =~= zero_block());
    }

    /// One step: `(a, b, c, d)` becomes `(d, new_b, b, c)`.
    fn step(&mut self, m: u32, k: u32, s: u32, func: RoundFn)
        ensures
            final(self).buffer == old(self).buffer,
            final(self).state@ == seq![
                old(self).state@[3],
                step_word(old(self).state@[0], old(self).state@[1], old(self).state@[2], old(self).state@[3], m, k, s, func),
                old(self).state@[1],
                old(self).state@[2],
            ],
    {
        let mixed: u32 = func.apply(self.state[1], self.state[2], self.state[3]);
        let sum: u32 = wrapping_add32(wrapping_add32(wrapping_add32(self.state[0], mixed), m), k);
        let new_b: u32 = wrapping_add32(rotate_left32(sum, s), self.state[1]);
        self.state[0] = self.state[3];
        self.state[3] = self.state[2];
        self.state[2] = self.state[1];
        self.state[1] = new_b;
        assert(self.state@ =~= seq![
            old(self).state@[3],
            step_word(old(self).state@[0], old(self).state@[1], old(self).state@[2], old(self).state@[3], m, k, s, func),
            old(self).state@[1],
            old(self).state@[2],
        ]);
    }

    /// Writes the padded `message` and its bit length into the block.
    fn encode_message(&mut self, message: &[u8])
        requires
            message@.len() <= MAX_MESSAGE_LEN,
        ensures
            final(self).state == old(self).state,
            final(self).buffer@ == encode_block(old(self).buffer@, message@),
    {
        let mut encoded: Vec<u8> = Vec::new();
        let mut b: usize = 0;
        while b < message.len()
            invariant
                b <= message@.len(),
                encoded@ == message@.take(b as int),
            decreases message@.len() - b,
        {
            encoded.push(message[b]);
            b = b + 1;
            assert(encoded@ =~= message@.take(b as int));
        }
        assert(encoded@ =~= message@);
        encoded.push(0x80u8);
        let words = u8_to_u32_array(encoded.as_slice());
        let message_bits: u64 = message.len() as u64 * 8;
        let mut w: usize = 0;
        while w < words.len()
            invariant
                words@ == le_words(message@.push(0x80u8)),
                words@.len() <= 14,
                w <= words@.len(),
                self.state == old(self).state,
                forall|v: int| 0 <= v < w ==> self.buffer@[v] == words@[v],
                forall|v: int| w <= v < 16 ==> self.buffer@[v] == old(self).buffer@[v],
            decreases words@.len() - w,
        {
            self.buffer[w] = words[w];
            w = w + 1;
        }
        self.buffer[14] = message_bits as u32;
        self.buffer[15] = (message_bits / 0x1_0000_0000) as u32;
        assert(self.buffer@ =~= encode_block(old(self).buffer@, message@));
    }

    /// Runs the 64 steps over the block.
    fn transform(&mut self)
        ensures
            final(self).buffer == old(self).buffer,
            final(self).state@ == compress(old(self).state@, old(self).buffer@),
    {
        let mut j: usize = 0;
        while j < 64
            invariant
                j <= 64,
                self.buffer == old(self).buffer,
                self.state@ == steps(old(self).state@, old(self).buffer@, j as nat),
            decreases 64 - j,
        {
            proof {
                lemma_word_indices_in_range(j as int);
            }
            let func = RoundFn::for_step(j);
            self.step(self.buffer[WORD_INDICES[j]], ROUND_CONSTANTS[j], ROTATIONS[j], func);
            j = j + 1;
        }
    }

    /// The digest of the current state, as 32 uppercase hexadecimal digits.
    fn finalize(&self) -> (r: String)
        ensures
            r@ == digest_hex(self.state@),
    {
        let mut words: [u32; 4] = [0u32; 4];
        let mut w: usize = 0;
        while w < 4
            invariant
                w <= 4,
                forall|v: int| 0 <= v < w ==> words@[v] == add32(self.state@[v], initial_state()[v]),
            decreases 4 - w,
        {
            assert(INITIAL_STATE@[w as int] == initial_state()[w as int]);
            words[w] = wrapping_add32(self.state[w], INITIAL_STATE[w]);
            w = w + 1;
        }
        assert(words@ =~= feed_forward(self.state@));
        words_to_hex(&words)
    }
}

} // verus!
