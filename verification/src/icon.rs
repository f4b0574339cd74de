//! Decoding the window icon from the bytes of an image file.

use vstd::prelude::*;

verus! {

/// A decoded image: its raw pixel bytes and its size in pixels.
#[derive(Debug, Clone)]
pub struct IconImage {
    pub pixels: Vec<u8>,
    pub width: u32,
    pub height: u32,
}

/// Whether the bytes of a file decode as an image, and if so its width and
/// height: `Some((width, height))` when they do, `None` when the format is not
/// recognised or the data does not decode.
pub uninterp spec fn decoded_size(bytes: Seq<u8>) -> Option<(u32, u32)>;

/// A raw pixel buffer of a `width` x `height` image holds a whole number of
/// bytes per pixel, as one of the colour types of the decoder lays them out
/// (1, 2, 3, 4, 6, 8, 12 or 16 bytes).
pub open spec fn is_pixel_buffer(len: nat, width: nat, height: nat) -> bool {
    let n = width * height;
    ||| len == n
    ||| len == 2 * n
    ||| len == 3 * n
    ||| len == 4 * n
    ||| len == 6 * n
    ||| len == 8 * n
    ||| len == 12 * n
    ||| len == 16 * n
}

/// `image::ImageReader::new(Cursor::new(bytes)).with_guessed_format()` then
/// `decode()`: the image's raw pixel bytes (`DynamicImage::as_bytes`), width and
/// height, or `None` when the format is unknown or the data does not decode.
/// Whether it decodes and the size are named by `decoded_size`; of the pixel
/// bytes only their count is stated (the decoder allocates width x height x
/// bytes-per-pixel of them), since samples wider than a byte come in the
/// machine's byte order. Format-detection hooks (`image::hooks`) could change
/// which formats are recognised; this program registers none.
#[verifier::external_body]
fn decode_image(bytes: &[u8]) -> (res: Option<(Vec<u8>, u32, u32)>)
    ensures
        match res {
            Some((pixels, width, height)) => {
                &&& decoded_size(bytes@) == Some((width, height))
                &&& is_pixel_buffer(pixels@.len(), width as nat, height as nat)
            },
            None => decoded_size(bytes@) is None,
        },
{
    let reader = match image::ImageReader::new(std::io::Cursor::new(bytes)).with_guessed_format() {
        Ok(reader) => reader,
        Err(_) => return None,
    };
    let img = match reader.decode() {
        Ok(img) => img,
        Err(_) => return None,
    };
    Some((img.as_bytes().to_vec(), img.width(), img.height()))
}

/// The icon made of a decoder's output: its pixels and size, or none when the
/// data did not decode.
pub fn icon_from_decoded(decoded: Option<(Vec<u8>, u32, u32)>) -> (res: Option<IconImage>)
    ensures
        match decoded {
            Some((pixels, width, height)) => res matches Some(icon) && icon.pixels@ == pixels@
                && icon.width == width && icon.height == height,
            None => res is None,
        },
{
    match decoded {
        Some((pixels, width, height)) => Some(IconImage { pixels, width, height }),
        None => None,
    }
}

/// The icon image held in the bytes of an image file: present exactly when the
/// bytes decode, with the decoded size and a pixel buffer of that size.
pub fn decode_icon(bytes: &[u8]) -> (res: Option<IconImage>)
    ensures
        match res {
            Some(icon) => {
                &&& decoded_size(bytes@) == Some((icon.width, icon.height))
                &&& is_pixel_buffer(icon.pixels@.len(), icon.width as nat, icon.height as nat)
            },
            None => decoded_size(bytes@) is None,
        },
{
    icon_from_decoded(decode_image(bytes))
}

} // verus!
