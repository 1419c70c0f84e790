//! The parameters of a pass as the bytes that are uploaded to the device.
//!
//! Each parameter is a short run of 32-bit words; the device reads them in
//! the byte order of the machine that uploads them.

use vstd::prelude::*;
use vstd::arithmetic::div_mod::lemma_fundamental_div_mod_converse;
use crate::layout::FrameLayout;
use crate::readback::spec_word;
use crate::scene::CameraTransform;

verus! {

/// Byte `place` of a word, counted from the least significant one.
pub open spec fn byte_of(word: u32, place: int) -> u8 {
    if place == 0 {
        (word as int % 0x100) as u8
    } else if place == 1 {
        (word as int / 0x100 % 0x100) as u8
    } else if place == 2 {
        (word as int / 0x1_0000 % 0x100) as u8
    } else {
        (word as int / 0x100_0000 % 0x100) as u8
    }
}

/// The words as bytes, least significant byte of each word first.
pub open spec fn le_bytes(words: Seq<u32>) -> Seq<u8> {
    Seq::new(4 * words.len(), |i: int| byte_of(words[i / 4], i % 4))
}

/// The words as bytes, most significant byte of each word first.
pub open spec fn be_bytes(words: Seq<u32>) -> Seq<u8> {
    Seq::new(4 * words.len(), |i: int| byte_of(words[i / 4], 3 - i % 4))
}

/// `bytes` are the words in one of the two byte orders that a machine may
/// have.
pub open spec fn in_machine_order(bytes: Seq<u8>, words: Seq<u32>) -> bool {
    bytes == le_bytes(words) || bytes == be_bytes(words)
}

/// The bytes of the words, as they lie in this machine's memory.
///
/// Trusted: calls `bytemuck::cast_slice`, which views the memory of a slice
/// of words as a slice of bytes, and copies the result.  The contract
/// claims that the bytes are the words in little-endian or in big-endian
/// order; which of the two depends on the machine.  The cast cannot fail:
/// a byte needs no alignment and four bytes make a word.
#[verifier::external_body]
pub(crate) fn cast_words(words: &Vec<u32>) -> (bytes: Vec<u8>)
    ensures
        in_machine_order(bytes@, words@),
{
    bytemuck::cast_slice::<u32, u8>(words).to_vec()
}

/// Reading a word back from little-endian bytes gives the word that was
/// written.
pub proof fn lemma_le_bytes_read_back(words: Seq<u32>, index: int)
    requires
        0 <= index < words.len(),
    ensures
        spec_word(le_bytes(words), index) == words[index],
{
    let bytes = le_bytes(words);
    let w = words[index] as int;
    assert forall|k: int| 0 <= k < 4 implies #[trigger] bytes[4 * index + k] == byte_of(
        words[index],
        k,
    ) by {
        lemma_fundamental_div_mod_converse(4 * index + k, 4, index, k);
    }
    assert(bytes[4 * index] == byte_of(words[index], 0));
    assert(bytes[4 * index + 1] == byte_of(words[index], 1));
    assert(bytes[4 * index + 2] == byte_of(words[index], 2));
    assert(bytes[4 * index + 3] == byte_of(words[index], 3));
    assert(w % 0x100 + 0x100 * (w / 0x100 % 0x100) + 0x1_0000 * (w / 0x1_0000 % 0x100)
        + 0x100_0000 * (w / 0x100_0000 % 0x100) == w);
}

/// The upload for a parameter of one word.
pub fn scalar_payload(word: u32) -> (bytes: Vec<u8>)
    ensures
        in_machine_order(bytes@, seq![word]),
{
    let mut words: Vec<u32> = Vec::new();
    words.push(word);
    assert(words@ =~= seq![word]);
    cast_words(&words)
}

/// The upload for a parameter of two words.
pub fn pair_payload(first: u32, second: u32) -> (bytes: Vec<u8>)
    ensures
        in_machine_order(bytes@, seq![first, second]),
{
    let mut words: Vec<u32> = Vec::new();
    words.push(first);
    words.push(second);
    assert(words@ =~= seq![first, second]);
    cast_words(&words)
}

/// The upload for the resolution that the passes run at: the padded row
/// length and the number of rows.
pub fn resolution_payload(layout: &FrameLayout) -> (bytes: Vec<u8>)
    ensures
        in_machine_order(bytes@, seq![layout.spec_stride() as u32, layout.spec_height() as u32]),
{
    pair_payload(layout.stride(), layout.height())
}

/// The upload for the camera transform: its sixteen words in order.
pub fn camera_payload(camera: &CameraTransform) -> (bytes: Vec<u8>)
    requires
        camera.wf(),
    ensures
        in_machine_order(bytes@, camera@),
{
    let source = camera.words();
    let mut words: Vec<u32> = Vec::new();
    let mut i: usize = 0;
    while i < 16
        invariant
            i <= 16,
            source@.len() == 16,
            words@ == source@.take(i as int),
        decreases 16 - i,
    {
        words.push(source[i]);
        assert(words@ =~= source@.take(i + 1));
        i = i + 1;
    }
    assert(words@ =~= source@);
    cast_words(&words)
}

} // verus!
