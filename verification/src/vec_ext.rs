//! Appending machine words to byte vectors in network (big-endian) order.

use vstd::prelude::*;

verus! {

/// The byte of `word` that is `index` bytes up from the least significant one.
pub open spec fn word_byte(word: usize, index: nat) -> u8 {
    ((word >> (8 * index)) & 0xff) as u8
}

/// The `count` least significant bytes of `word`, most significant first.
pub open spec fn be_word_bytes(word: usize, count: nat) -> Seq<u8> {
    Seq::new(count, |j: int| word_byte(word, (count - 1 - j) as nat))
}

/// Extension of byte vectors with the ability to push words.
pub trait VecExt: View<V = Seq<u8>> + Sized {
    /// Appends the lowest `bits / 8` bytes of `word`, most significant byte
    /// first.  Every byte pushed must be a byte of a machine word.
    fn push_word(&mut self, word: usize, bits: usize)
        requires
            bits / 8 * 8 <= usize::BITS,
        ensures
            final(self)@ == old(self)@ + be_word_bytes(word, (bits / 8) as nat),
    ;
}

impl VecExt for Vec<u8> {
    fn push_word(&mut self, word: usize, bits: usize) {
        let bytes = bits / 8;
        let ghost start = self@;
        let mut remaining = bytes;
        while remaining > 0
            invariant
                remaining <= bytes,
                bytes == bits / 8,
                bytes * 8 <= usize::BITS,
                self@ =~= start + be_word_bytes(word, bytes as nat).take(
                    (bytes - remaining) as int,
                ),
            decreases remaining,
        {
            remaining = remaining - 1;
            let byte = ((word >> (remaining * 8)) & 0xFF) as u8;
            self.push(byte);
            assert(be_word_bytes(word, bytes as nat)[(bytes - 1 - remaining) as int]
                == word_byte(word, remaining as nat));
        }
        assert(be_word_bytes(word, bytes as nat).take(bytes as int) =~= be_word_bytes(
            word,
            bytes as nat,
        ));
    }
}

} // verus!
