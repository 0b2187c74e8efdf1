//! The preview picture of a window: from the pixels that the desktop hands
//! out to a PNG file, and to the text that carries it to the user interface.

use crate::resolve::{find_window_handle, is_first_answer, no_answer};
use crate::target::{identifier_pid, identifier_title};
use crate::text::lowercase_of;
use crate::window::GameWindow;
use vstd::prelude::*;

verus! {

/// Why no preview picture could be made.
#[derive(Debug, Clone, Copy, PartialEq, Eq, Structural)]
pub enum PreviewError {
    /// No window answers to the identifier.
    WindowNotFound,
    /// The window has no area.
    InvalidDimensions,
    /// The pixels do not fill the area of the window.
    BufferSize,
    /// The PNG encoder refused the picture.
    Encoding,
}

/// The error of the PNG encoder. Nothing inside it is visible here.
#[verifier::external_type_specification]
#[verifier::external_body]
pub struct ExEncodingError(png::EncodingError);

/// The PNG file that the encoder writes for an 8-bit RGBA picture.
pub uninterp spec fn png_rgba8(width: u32, height: u32, pixels: Seq<u8>) -> Seq<u8>;

/// The text that the standard base64 alphabet, with padding, encodes bytes to.
pub uninterp spec fn base64_standard(bytes: Seq<u8>) -> Seq<char>;

/// Encodes an 8-bit RGBA picture with `png::Encoder`: `new`, `set_color`,
/// `set_depth`, `write_header` and `Writer::write_image_data`, the end of the
/// file being written when the writer is dropped. The contract names the file
/// that comes out. It also says that a file comes out: the encoder refuses a
/// picture without area, a colour type that does not go with the depth, and
/// data of another length than the picture, none of which is handed to it
/// here, and writing into a vector does not fail.
#[verifier::external_body]
fn png_encode_rgba8(width: u32, height: u32, pixels: &Vec<u8>) -> (file: Result<
    Vec<u8>,
    png::EncodingError,
>)
    requires
        width > 0,
        height > 0,
        pixels.len() == 4 * width * height,
    ensures
        file is Ok,
        file matches Ok(bytes) ==> bytes@ == png_rgba8(width, height, pixels@),
{
    let mut png_data = Vec::new();
    {
        let mut encoder = png::Encoder::new(&mut png_data, width, height);
        encoder.set_color(png::ColorType::Rgba);
        encoder.set_depth(png::BitDepth::Eight);
        let mut writer = encoder.write_header()?;
        writer.write_image_data(pixels)?;
    }
    Ok(png_data)
}

/// Encodes bytes with `base64::engine::general_purpose::STANDARD.encode`.
/// The contract names the text that comes out.
#[verifier::external_body]
fn base64_encode(bytes: &Vec<u8>) -> (text: String)
    ensures
        text@ == base64_standard(bytes@),
{
    base64::Engine::encode(&base64::engine::general_purpose::STANDARD, bytes)
}

/// The picture with the first and the third byte of each whole pixel
/// exchanged: blue, green, red, alpha becomes red, green, blue, alpha.
pub open spec fn rgba_of(bgra: Seq<u8>) -> Seq<u8> {
    Seq::new(
        bgra.len(),
        |i: int|
            {
                let start = i - i % 4;
                if start + 4 > bgra.len() {
                    bgra[i]
                } else if i % 4 == 0 {
                    bgra[i + 2]
                } else if i % 4 == 2 {
                    bgra[i - 2]
                } else {
                    bgra[i]
                }
            },
    )
}

/// Turns a picture of blue, green, red, alpha bytes into one of red, green,
/// blue, alpha bytes.
pub fn bgra_to_rgba(pixels: &mut Vec<u8>)
    ensures
        final(pixels)@ == rgba_of(old(pixels)@),
{
    let n = pixels.len();
    let whole: usize = n - n % 4;
    let mut i: usize = 0;
    while i < whole
        invariant
            n == pixels.len(),
            n == old(pixels)@.len(),
            whole == n - n % 4,
            i % 4 == 0,
            i <= whole,
            forall|k: int| 0 <= k < i ==> pixels@[k] == rgba_of(old(pixels)@)[k],
            forall|k: int| i <= k < n ==> pixels@[k] == old(pixels)@[k],
        decreases whole - i,
    {
        let blue = pixels[i];
        let red = pixels[i + 2];
        pixels.set(i, red);
        pixels.set(i + 2, blue);
        proof {
            assert forall|k: int| 0 <= k < i + 4 implies pixels@[k] == rgba_of(old(pixels)@)[k] by {
                if k >= i {
                    assert(k - k % 4 == i);
                }
            }
        }
        i += 4;
    }
    proof {
        assert forall|k: int| 0 <= k < n implies pixels@[k] == rgba_of(old(pixels)@)[k] by {
            if k >= i {
                assert(k - k % 4 == whole);
            }
        }
        assert(pixels@ =~= rgba_of(old(pixels)@));
    }
}

/// The number of bytes of a picture of four bytes for each pixel.
pub open spec fn picture_len(width: int, height: int) -> int {
    4 * width * height
}

/// Whether a picture can be encoded: it has an area, and `len` bytes fill it.
pub open spec fn is_picture(width: int, height: int, len: int) -> bool {
    width > 0 && height > 0 && len == picture_len(width, height)
}

/// Takes in what the PNG encoder answered: the file, or that the encoding
/// failed.
pub fn settle_encoding(file: Result<Vec<u8>, png::EncodingError>) -> (png: Result<
    Vec<u8>,
    PreviewError,
>)
    ensures
        match file {
            Ok(bytes) => png == Ok::<Vec<u8>, PreviewError>(bytes),
            Err(_) => png == Err::<Vec<u8>, PreviewError>(PreviewError::Encoding),
        },
{
    match file {
        Ok(bytes) => Ok(bytes),
        Err(_) => Err(PreviewError::Encoding),
    }
}

/// Encodes the pixels of a window, given as blue, green, red, alpha bytes row
/// by row, as a PNG file.
///
/// A window without area is refused with `InvalidDimensions`, and pixels that
/// do not fill the area with `BufferSize`. Otherwise the encoder is handed
/// the picture in red, green, blue, alpha order, and its file is the result.
pub fn encode_preview(width: i32, height: i32, bgra: Vec<u8>) -> (png: Result<
    Vec<u8>,
    PreviewError,
>)
    ensures
        width <= 0 || height <= 0 ==> png == Err::<Vec<u8>, PreviewError>(
            PreviewError::InvalidDimensions,
        ),
        width > 0 && height > 0 && bgra@.len() != picture_len(width as int, height as int) ==> png
            == Err::<Vec<u8>, PreviewError>(PreviewError::BufferSize),
        is_picture(width as int, height as int, bgra@.len() as int) ==> png is Ok
            && png.unwrap()@ == png_rgba8(width as u32, height as u32, rgba_of(bgra@)),
{
    if width <= 0 || height <= 0 {
        return Err(PreviewError::InvalidDimensions);
    }
    let w: u64 = width as u64;
    let h: u64 = height as u64;
    assert(0 < 4 * w * h <= 0x4_0000_0000_0000_0000) by (nonlinear_arith)
        requires
            0 < w <= 0x8000_0000,
            0 < h <= 0x8000_0000,
    ;
    assert(4 * w * h == 4 * (w * h)) by (nonlinear_arith);
    assert(0 < w * h <= 0x4000_0000_0000_0000) by (nonlinear_arith)
        requires
            0 < w <= 0x8000_0000,
            0 < h <= 0x8000_0000,
    ;
    let area: u64 = w * h;
    proof {
        assert(picture_len(width as int, height as int) == 4 * (w * h)) by (nonlinear_arith)
            requires
                w == width,
                h == height,
        ;
        assert(bgra.len() <= usize::MAX);
        assert(usize::MAX <= u64::MAX);
    }
    if area > 0x3FFF_FFFF_FFFF_FFFF || bgra.len() as u64 != 4 * area {
        return Err(PreviewError::BufferSize);
    }
    let mut pixels = bgra;
    bgra_to_rgba(&mut pixels);
    settle_encoding(png_encode_rgba8(width as u32, height as u32, &pixels))
}

/// The text that carries a PNG file to the user interface.
pub fn preview_text(png: &Vec<u8>) -> (text: String)
    ensures
        text@ == base64_standard(png@),
{
    base64_encode(png)
}

/// Finds the window to take the preview picture of.
///
/// The window is the one that the identifier names; `widen` decides whether
/// windows of other processes are searched when the process of the
/// identifier has no window that answers. Without such a window the preview
/// fails with `WindowNotFound`.
pub fn capture_window_preview_impl(identifier: &str, windows: &Vec<GameWindow>, widen: bool) -> (found:
    Result<usize, PreviewError>)
    ensures
        ({
            let title = identifier_title(identifier@);
            let pid = identifier_pid(identifier@);
            let needle = lowercase_of(title);
            if title.len() == 0 && pid is None {
                found == Err::<usize, PreviewError>(PreviewError::WindowNotFound)
            } else if !no_answer(windows@, pid, needle) {
                found is Ok && is_first_answer(windows@, pid, needle, found.unwrap() as int)
            } else if pid is Some && widen && !no_answer(windows@, None, needle) {
                found is Ok && is_first_answer(windows@, None, needle, found.unwrap() as int)
            } else {
                found == Err::<usize, PreviewError>(PreviewError::WindowNotFound)
            }
        }),
{
    match find_window_handle(identifier, windows, widen) {
        Some(i) => Ok(i),
        None => Err(PreviewError::WindowNotFound),
    }
}

} // verus!
