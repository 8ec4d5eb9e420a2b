//! What recorded work on the GPU has in common.

use vstd::prelude::*;

use crate::vk::{VkResult, ERROR_INITIALIZATION_FAILED};

verus! {

/// How many work items a group of a shader covers in each direction.
pub const GROUP_SIZE: u32 = 8;

/// As many whole steps as it takes to cover a length.
pub open spec fn steps(length: u32, step: u32) -> u32 {
    ((length + step - 1) / (step as int)) as u32
}

/// Rounds a quotient up.
pub fn div_ceil(length: u32, step: u32) -> (count: u32)
    requires
        step > 0,
    ensures
        count == steps(length, step),
{
    let whole: u32 = length / step;
    let ghost l = length as int;
    let ghost s = step as int;
    let ghost w = whole as int;
    proof {
        assert(l == s * (l / s) + l % s && 0 <= l % s < s) by (nonlinear_arith)
            requires
                s > 0,
        ;
        if l % s == 0 {
            assert((l + s - 1) / s == w) by (nonlinear_arith)
                requires
                    l == s * w,
                    s > 0,
            ;
        } else {
            assert((l + s - 1) / s == w + 1) by (nonlinear_arith)
                requires
                    l == s * w + l % s,
                    0 < l % s < s,
                    s > 0,
            ;
            assert(w < 0xffff_ffff) by (nonlinear_arith)
                requires
                    l == s * w + l % s,
                    0 < l % s < s,
                    l <= 0xffff_ffff,
                    s > 0,
            ;
        }
    }
    if length % step == 0 {
        whole
    } else {
        whole + 1
    }
}

/// The steps cover the length, and one step fewer does not.
pub proof fn steps_cover(length: u32, step: u32)
    requires
        step > 0,
        length > 0,
    ensures
        steps(length, step) * step >= length,
        (steps(length, step) - 1) * step < length,
{
    let l = length as int;
    let s = step as int;
    let q = (l + s - 1) / s;
    assert(l + s - 1 == s * q + (l + s - 1) % s && 0 <= (l + s - 1) % s < s) by (nonlinear_arith)
        requires
            s > 0,
            q == (l + s - 1) / s,
    ;
    assert(0 <= q <= l) by (nonlinear_arith)
        requires
            s >= 1,
            l >= 1,
            l + s - 1 == s * q + (l + s - 1) % s,
            0 <= (l + s - 1) % s < s,
    ;
    assert(q * s >= l && (q - 1) * s < l) by (nonlinear_arith)
        requires
            l + s - 1 == s * q + (l + s - 1) % s,
            0 <= (l + s - 1) % s < s,
    ;
}

/// Four bytes from a place on, the first one weighing least.
pub open spec fn little_endian(bytes: Seq<u8>, word: int) -> u32 {
    (bytes[4 * word] + 0x100 * bytes[4 * word + 1] + 0x1_0000 * bytes[4 * word + 2] + 0x100_0000
        * bytes[4 * word + 3]) as u32
}

/// Four bytes from a place on, the first one weighing most.
pub open spec fn big_endian(bytes: Seq<u8>, word: int) -> u32 {
    (0x100_0000 * bytes[4 * word] + 0x1_0000 * bytes[4 * word + 1] + 0x100 * bytes[4 * word + 2]
        + bytes[4 * word + 3]) as u32
}

/// The words as the shader finds them in memory: `bytemuck::cast_slice` to
/// bytes. Every word stands in its place, all of them in the byte order of the
/// machine; which one that is, is not said.
#[verifier::external_body]
pub(crate) fn word_bytes(words: &[u32]) -> (bytes: Vec<u8>)
    ensures
        bytes@.len() == 4 * words@.len(),
        (forall|i: int|
            0 <= i < words@.len() ==> little_endian(bytes@, i) == #[trigger] words@[i]) || (
        forall|i: int| 0 <= i < words@.len() ==> big_endian(bytes@, i) == #[trigger] words@[i]),
{
    bytemuck::cast_slice::<u32, u8>(words).to_vec()
}

/// The first word of every shader.
pub const SHADER_MAGIC: u32 = 0x0723_0203;

/// The words of a shader: its length is made of words, and the first of them
/// is the magic number in one of the two byte orders, which is that of all.
pub open spec fn shader_words_of(bytes: Seq<u8>) -> Option<Seq<u32>> {
    if bytes.len() == 0 || bytes.len() % 4 != 0 {
        None
    } else if little_endian(bytes, 0) == SHADER_MAGIC {
        Some(Seq::new(bytes.len() / 4, |i: int| little_endian(bytes, i)))
    } else if big_endian(bytes, 0) == SHADER_MAGIC {
        Some(Seq::new(bytes.len() / 4, |i: int| big_endian(bytes, i)))
    } else {
        None
    }
}

/// `ash::util::read_spv` over bytes in memory. It takes a shader in either byte
/// order, and refuses bytes that are not made of words or do not start with the
/// magic number.
#[verifier::external_body]
fn read_spv(bytes: &[u8]) -> (words: Option<Vec<u32>>)
    ensures
        match words {
            Some(words) => shader_words_of(bytes@) == Some(words@),
            None => shader_words_of(bytes@) is None,
        },
{
    ash::util::read_spv(&mut std::io::Cursor::new(bytes)).ok()
}

/// The words of a shader for the driver.
pub fn shader_words(bytes: &[u8]) -> (result: Result<Vec<u32>, VkResult>)
    ensures
        match result {
            Ok(words) => shader_words_of(bytes@) == Some(words@),
            Err(error) => shader_words_of(bytes@) is None && error
                == ERROR_INITIALIZATION_FAILED,
        },
{
    match read_spv(bytes) {
        Some(words) => Ok(words),
        None => Err(ERROR_INITIALIZATION_FAILED),
    }
}

/// Words that start with the magic number come back from their bytes, in
/// whichever of the two orders the bytes of all words stand. Bytes that are not
/// made of words are no shader.
pub proof fn a_shader_comes_back_from_its_bytes(bytes: Seq<u8>, words: Seq<u32>)
    ensures
        words.len() > 0 && words[0] == 0x0723_0203 && bytes.len() == 4 * words.len() && (forall|
            i: int,
        |
            0 <= i < words.len() ==> #[trigger] words[i] == bytes[4 * i] + 256 * bytes[4 * i + 1]
                + 65536 * bytes[4 * i + 2] + 16777216 * bytes[4 * i + 3]) ==> shader_words_of(bytes)
            == Some(words),
        words.len() > 0 && words[0] == 0x0723_0203 && bytes.len() == 4 * words.len() && (forall|
            i: int,
        |
            0 <= i < words.len() ==> #[trigger] words[i] == bytes[4 * i + 3] + 256 * bytes[4 * i
                + 2] + 65536 * bytes[4 * i + 1] + 16777216 * bytes[4 * i]) ==> shader_words_of(
            bytes,
        ) == Some(words),
        bytes.len() == 0 || bytes.len() % 4 != 0 ==> shader_words_of(bytes) is None,
        shader_words_of(bytes) matches Some(found) ==> found.len() * 4 == bytes.len() && found[0]
            == 0x0723_0203,
{
    if words.len() > 0 && bytes.len() == 4 * words.len() {
        assert(bytes.len() / 4 == words.len());
        if let Some(found) = shader_words_of(bytes) {
            if words[0] == 0x0723_0203 {
                if forall|i: int|
                    0 <= i < words.len() ==> #[trigger] words[i] == bytes[4 * i] + 256 * bytes[4
                        * i + 1] + 65536 * bytes[4 * i + 2] + 16777216 * bytes[4 * i + 3] {
                    assert(found =~= words);
                }
                if forall|i: int|
                    0 <= i < words.len() ==> #[trigger] words[i] == bytes[4 * i + 3] + 256
                        * bytes[4 * i + 2] + 65536 * bytes[4 * i + 1] + 16777216 * bytes[4 * i] {
                    assert(words[0] == bytes[3] + 256 * bytes[2] + 65536 * bytes[1] + 16777216
                        * bytes[0]);
                    assert(found =~= words);
                }
            }
        }
    }
}

} // verus!
