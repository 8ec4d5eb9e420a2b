use tuxscaling::gpu::{div_ceil, shader_words, SHADER_MAGIC};
use tuxscaling::vk::ERROR_INITIALIZATION_FAILED;

#[test]
fn groups_cover_every_pixel() {
    assert_eq!(div_ceil(0, 8), 0);
    assert_eq!(div_ceil(8, 8), 1);
    assert_eq!(div_ceil(9, 8), 2);
    assert_eq!(div_ceil(u32::MAX, 8), 0x2000_0000);
    assert_eq!(div_ceil(u32::MAX, 1), u32::MAX);
}

#[test]
fn shaders_are_read_in_either_byte_order() {
    let words = [SHADER_MAGIC, 0x0001_0300, 7];
    let little: Vec<u8> = words.iter().flat_map(|word| word.to_le_bytes()).collect();
    let big: Vec<u8> = words.iter().flat_map(|word| word.to_be_bytes()).collect();

    assert_eq!(shader_words(&little), Ok(words.to_vec()));
    assert_eq!(shader_words(&big), Ok(words.to_vec()));
}

#[test]
fn bytes_that_are_no_shader_are_refused() {
    let refused = Err(ERROR_INITIALIZATION_FAILED);
    assert_eq!(shader_words(&[]), refused);
    assert_eq!(shader_words(&[3, 2, 35]), refused);
    assert_eq!(shader_words(&[3, 2, 35, 7, 0]), refused);
    assert_eq!(shader_words(&[1, 2, 3, 4]), refused);
    assert_eq!(shader_words(&[3, 2, 35, 7]), Ok(vec![SHADER_MAGIC]));
}
