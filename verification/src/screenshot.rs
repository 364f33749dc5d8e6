//! Screenshots: what is said of them and written beside them, and the pixels
//! of a picture.

use vstd::prelude::*;

use crate::error::{ErrorKind, Failure};
use crate::style::{ok_label, ok_tag};
use crate::text::{address, address_text, decimal, decimal_text, ends};
use crate::transfer::{number_at, number_is_told};

verus! {

/// What the console says of a screenshot.
#[derive(Debug)]
pub struct ScreenshotMeta {
    pub width: u32,
    pub height: u32,
    pub pitch: u32,
    pub framebuffer_size: u64,
    /// The name of the pixel format.
    pub format: String,
    /// Its code.
    pub format_raw: u32,
}

/// The line about a screenshot.
pub open spec fn captured_line(m: ScreenshotMeta, colors: bool) -> Seq<char> {
    ok_label("captured"@, colors) + " "@ + decimal(m.width as nat) + "x"@ + decimal(m.height as nat)
        + " pitch="@ + decimal(m.pitch as nat) + " bytes="@ + decimal(m.framebuffer_size as nat)
        + " format="@ + m.format@
}

/// Says what was captured.
pub fn captured_text(m: &ScreenshotMeta, colors: bool) -> (r: String)
    ensures
        r@ == captured_line(*m, colors),
{
    let width = decimal_text(m.width as u64);
    let height = decimal_text(m.height as u64);
    let pitch = decimal_text(m.pitch as u64);
    let size = decimal_text(m.framebuffer_size);
    let mut out = ok_tag("captured", colors);
    out.append(" ");
    out.append(width.as_str());
    out.append("x");
    out.append(height.as_str());
    out.append(" pitch=");
    out.append(pitch.as_str());
    out.append(" bytes=");
    out.append(size.as_str());
    out.append(" format=");
    out.append(m.format.as_str());
    out
}

/// The file beside a raw framebuffer.
pub fn sidecar_path(output: &str) -> (r: String)
    ensures
        r@ == output@ + ".meta"@,
{
    let mut out = output.to_owned();
    out.append(".meta");
    out
}

/// What is written beside a raw framebuffer.
pub open spec fn sidecar(m: ScreenshotMeta) -> Seq<char> {
    "pitch="@ + decimal(m.pitch as nat) + "\nwidth="@ + decimal(m.width as nat) + "\nheight="@
        + decimal(m.height as nat) + "\nformat="@ + m.format@ + "\nframebuffer_size="@ + decimal(
        m.framebuffer_size as nat,
    ) + "\npitch_hex="@ + address(m.pitch) + "\nformat_raw="@ + address(m.format_raw) + "\n"@
}

/// What is written beside a raw framebuffer.
pub fn sidecar_text(m: &ScreenshotMeta) -> (r: String)
    ensures
        r@ == sidecar(*m),
{
    let pitch = decimal_text(m.pitch as u64);
    let width = decimal_text(m.width as u64);
    let height = decimal_text(m.height as u64);
    let size = decimal_text(m.framebuffer_size);
    let pitch_hex = address_text(m.pitch);
    let code = address_text(m.format_raw);
    let mut out = "pitch=".to_owned();
    out.append(pitch.as_str());
    out.append("\nwidth=");
    out.append(width.as_str());
    out.append("\nheight=");
    out.append(height.as_str());
    out.append("\nformat=");
    out.append(m.format.as_str());
    out.append("\nframebuffer_size=");
    out.append(size.as_str());
    out.append("\npitch_hex=");
    out.append(pitch_hex.as_str());
    out.append("\nformat_raw=");
    out.append(code.as_str());
    out.append("\n");
    out
}

/// Says where a raw framebuffer was written.
pub fn wrote_raw_text(output: &str, colors: bool) -> (r: String)
    ensures
        r@ == ok_label("wrote"@, colors) + " raw framebuffer + metadata to "@ + output@ + " (+ "@
            + (output@ + ".meta"@) + ")"@,
{
    let beside = sidecar_path(output);
    let mut out = ok_tag("wrote", colors);
    out.append(" raw framebuffer + metadata to ");
    out.append(output);
    out.append(" (+ ");
    out.append(beside.as_str());
    out.append(")");
    out
}

/// Says where a picture was written.
pub fn wrote_png_text(output: &str, colors: bool) -> (r: String)
    ensures
        r@ == ok_label("wrote"@, colors) + " PNG to "@ + output@,
{
    let mut out = ok_tag("wrote", colors);
    out.append(" PNG to ");
    out.append(output);
    out
}

/// `len` bytes hold four bytes for each pixel. A row must fit in memory even
/// where there are none.
pub open spec fn rgba_fits(width: u32, height: u32, len: nat) -> bool {
    4 * width <= usize::MAX && 4 * width * height <= len
}

/// `image::RgbaImage::from_raw`, and `into_raw` on what it returns. The image
/// is made exactly where the buffer holds four bytes for each pixel, and holds
/// the buffer as it is.
#[verifier::external_body]
fn rgba_image(width: u32, height: u32, data: Vec<u8>) -> (r: Option<Vec<u8>>)
    ensures
        match r {
            Some(kept) => rgba_fits(width, height, data@.len()) && kept@ == data@,
            None => !rgba_fits(width, height, data@.len()),
        },
{
    match image::RgbaImage::from_raw(width, height, data) {
        Some(image) => Some(image.into_raw()),
        None => None,
    }
}

/// The pixels of a picture: what the screenshot was converted to, where it
/// could be, and where that fills the picture.
pub fn picture_pixels(m: &ScreenshotMeta, rgba: Option<Vec<u8>>) -> (r: Result<Vec<u8>, Failure>)
    ensures
        match rgba {
            None => r matches Err(f) && f.reports(
                ErrorKind::EmptyFilename,
                Some(
                    "cannot convert format "@ + m.format@
                        + " to PNG without de-tiling; re-run with --raw"@,
                ),
            ),
            Some(data) => if rgba_fits(m.width, m.height, data@.len()) {
                r matches Ok(pixels) && pixels@ == data@
            } else {
                r matches Err(f) && f.reports(
                    ErrorKind::EmptyFilename,
                    Some("RgbaImage::from_raw rejected the buffer dimensions"@),
                )
            },
        },
{
    match rgba {
        None => {
            let mut note = "cannot convert format ".to_owned();
            note.append(m.format.as_str());
            note.append(" to PNG without de-tiling; re-run with --raw");
            Err(Failure::noted(ErrorKind::EmptyFilename, note))
        },
        Some(data) => match rgba_image(m.width, m.height, data) {
            Some(pixels) => Ok(pixels),
            None => Err(
                Failure::noted(
                    ErrorKind::EmptyFilename,
                    "RgbaImage::from_raw rejected the buffer dimensions".to_owned(),
                ),
            ),
        },
    }
}

/// A buffer fits a picture exactly where each pixel, row by row, has its four
/// bytes in it, and a row of them can be addressed.
pub proof fn every_pixel_has_four_bytes(width: u32, height: u32, len: nat, x: int, y: int)
    requires
        rgba_fits(width, height, len),
        0 <= x < width,
        0 <= y < height,
    ensures
        4 * (y * width + x) + 4 <= len,
{
    assert(y * width + x + 1 <= width * height) by (nonlinear_arith)
        requires
            0 <= x < width,
            0 <= y < height,
    ;
    assert(4 * width * height == 4 * (width * height)) by (nonlinear_arith);
}

/// A buffer that lacks a byte of the last pixel does not fit.
pub proof fn last_pixel_is_needed(width: u32, height: u32, len: nat)
    requires
        width > 0,
        height > 0,
        len < 4 * ((height - 1) * width + width),
    ensures
        !rgba_fits(width, height, len),
{
    assert(4 * width * height == 4 * ((height - 1) * width + width)) by (nonlinear_arith);
}

/// What is written beside a raw framebuffer is seven lines, each with one value:
/// pitch, width, height, format, size, and pitch and format code in hex.
pub proof fn sidecar_tells_all(m: ScreenshotMeta)
    ensures
        ({
            let first = "pitch="@ + decimal(m.pitch as nat) + "\n"@;
            let second = "width="@ + decimal(m.width as nat) + "\n"@;
            let third = "height="@ + decimal(m.height as nat) + "\n"@;
            let fourth = "format="@ + m.format@ + "\n"@;
            let fifth = "framebuffer_size="@ + decimal(m.framebuffer_size as nat) + "\n"@;
            let sixth = "pitch_hex="@ + address(m.pitch) + "\n"@;
            let seventh = "format_raw="@ + address(m.format_raw) + "\n"@;
            sidecar(m) == first + second + third + fourth + fifth + sixth + seventh
        }),
{
    reveal_strlit("\n");
    reveal_strlit("width=");
    reveal_strlit("\nwidth=");
    reveal_strlit("height=");
    reveal_strlit("\nheight=");
    reveal_strlit("format=");
    reveal_strlit("\nformat=");
    reveal_strlit("framebuffer_size=");
    reveal_strlit("\nframebuffer_size=");
    reveal_strlit("pitch_hex=");
    reveal_strlit("\npitch_hex=");
    reveal_strlit("format_raw=");
    reveal_strlit("\nformat_raw=");
    assert("\n"@ + "width="@ =~= "\nwidth="@);
    assert("\n"@ + "height="@ =~= "\nheight="@);
    assert("\n"@ + "format="@ =~= "\nformat="@);
    assert("\n"@ + "framebuffer_size="@ =~= "\nframebuffer_size="@);
    assert("\n"@ + "pitch_hex="@ =~= "\npitch_hex="@);
    assert("\n"@ + "format_raw="@ =~= "\nformat_raw="@);
    let first = "pitch="@ + decimal(m.pitch as nat) + "\n"@;
    let second = "width="@ + decimal(m.width as nat) + "\n"@;
    let third = "height="@ + decimal(m.height as nat) + "\n"@;
    let fourth = "format="@ + m.format@ + "\n"@;
    let fifth = "framebuffer_size="@ + decimal(m.framebuffer_size as nat) + "\n"@;
    let sixth = "pitch_hex="@ + address(m.pitch) + "\n"@;
    let seventh = "format_raw="@ + address(m.format_raw) + "\n"@;
    assert(sidecar(m) =~= first + second + third + fourth + fifth + sixth + seventh);
}

/// The line about a screenshot tells its width, its height, its pitch, its bytes
/// and its format, in this order.
pub proof fn captured_line_tells_all(m: ScreenshotMeta, colors: bool)
    ensures
        ({
            let line = captured_line(m, colors);
            let a = ok_label("captured"@, colors).len() as int + 1;
            let b = a + decimal(m.width as nat).len() + 1;
            let c = b + decimal(m.height as nat).len() + 7;
            let d = c + decimal(m.pitch as nat).len() + 7;
            &&& number_at(line, a, m.width as nat)
            &&& line[b - 1] == 'x'
            &&& number_at(line, b, m.height as nat)
            &&& number_at(line, c, m.pitch as nat)
            &&& number_at(line, d, m.framebuffer_size as nat)
            &&& ends(line, " format="@ + m.format@)
        }),
{
    reveal_strlit(" ");
    reveal_strlit("x");
    reveal_strlit(" pitch=");
    reveal_strlit(" bytes=");
    reveal_strlit(" format=");
    let line = captured_line(m, colors);
    let end = " format="@ + m.format@;
    let h4 = " bytes="@ + decimal(m.framebuffer_size as nat) + end;
    let h3 = " pitch="@ + decimal(m.pitch as nat) + h4;
    let h2 = "x"@ + decimal(m.height as nat) + h3;
    let a = ok_label("captured"@, colors) + " "@;
    let b = a + decimal(m.width as nat) + "x"@;
    let c = b + decimal(m.height as nat) + " pitch="@;
    let d = c + decimal(m.pitch as nat) + " bytes="@;
    assert(line =~= a + decimal(m.width as nat) + h2);
    number_is_told(a, m.width as nat, h2);
    assert(line =~= b + decimal(m.height as nat) + h3);
    number_is_told(b, m.height as nat, h3);
    assert(line =~= c + decimal(m.pitch as nat) + h4);
    number_is_told(c, m.pitch as nat, h4);
    assert(line =~= d + decimal(m.framebuffer_size as nat) + end);
    number_is_told(d, m.framebuffer_size as nat, end);
    assert(line.skip(line.len() - end.len()) =~= end);
}

} // verus!
