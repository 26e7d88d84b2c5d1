//! The tray icon: an image file beside the program, decoded to RGBA, or,
//! when none can be read, a light-blue disc on a transparent square.

use vstd::prelude::*;

verus! {

/// The side of the drawn icon in pixels.
pub const ICON_SIZE: u32 = 32;

/// The pixel lies inside the disc: its distance to the centre (16, 16) is
/// less than 14.
pub open spec fn in_disc(x: int, y: int) -> bool {
    (x - 16) * (x - 16) + (y - 16) * (y - 16) < 14 * 14
}

/// A channel of a pixel, red, green, blue, alpha: (100, 180, 255, 255)
/// inside the disc, all zero outside.
pub open spec fn icon_channel(x: int, y: int, c: int) -> u8 {
    if in_disc(x, y) {
        if c == 0 {
            100
        } else if c == 1 {
            180
        } else {
            255
        }
    } else {
        0
    }
}

/// Whether a pixel of the drawn icon lies inside the disc.
fn pixel_in_disc(x: u32, y: u32) -> (r: bool)
    requires
        x < ICON_SIZE,
        y < ICON_SIZE,
    ensures
        r == in_disc(x as int, y as int),
{
    let cx: i32 = (ICON_SIZE as i32) / 2;
    let cy: i32 = (ICON_SIZE as i32) / 2;
    let dx: i32 = x as i32 - cx;
    let dy: i32 = y as i32 - cy;
    assert(-16 <= dx <= 15 && -16 <= dy <= 15);
    assert(dx * dx <= 256 && dy * dy <= 256) by (nonlinear_arith)
        requires
            -16 <= dx <= 15,
            -16 <= dy <= 15,
    ;
    assert(0 <= dx * dx && 0 <= dy * dy) by (nonlinear_arith);
    dx * dx + dy * dy < (cx - 2) * (cx - 2)
}

/// The RGBA bytes of the drawn icon, row by row, four bytes per pixel.
pub fn fallback_icon_rgba() -> (r: Vec<u8>)
    ensures
        r@.len() == 32 * 32 * 4,
        forall|y: int, x: int, c: int|
            0 <= y < 32 && 0 <= x < 32 && 0 <= c < 4 ==> #[trigger] r@[(y * 32 + x) * 4 + c]
                == icon_channel(x, y, c),
{
    let mut data: Vec<u8> = Vec::new();
    let mut p: u32 = 0;
    while p < ICON_SIZE * ICON_SIZE
        invariant
            p <= 1024,
            data@.len() == p * 4,
            forall|q: int, c: int|
                0 <= q < p && 0 <= c < 4 ==> #[trigger] data@[q * 4 + c] == icon_channel(
                    q % 32,
                    q / 32,
                    c,
                ),
        decreases 1024 - p,
    {
        let x: u32 = p % ICON_SIZE;
        let y: u32 = p / ICON_SIZE;
        if pixel_in_disc(x, y) {
            data.push(100);
            data.push(180);
            data.push(255);
            data.push(255);
        } else {
            data.push(0);
            data.push(0);
            data.push(0);
            data.push(0);
        }
        assert forall|q: int, c: int|
            0 <= q < p + 1 && 0 <= c < 4 implies #[trigger] data@[q * 4 + c] == icon_channel(
            q % 32,
            q / 32,
            c,
        ) by {
            if q == p {
                assert(q % 32 == x && q / 32 == y);
            }
        }
        p = p + 1;
    }
    assert forall|y: int, x: int, c: int|
        0 <= y < 32 && 0 <= x < 32 && 0 <= c < 4 implies #[trigger] data@[(y * 32 + x) * 4 + c]
        == icon_channel(x, y, c) by {
        let q: int = y * 32 + x;
        assert(q % 32 == x && q / 32 == y) by (nonlinear_arith)
            requires
                q == y * 32 + x,
                0 <= x < 32,
                0 <= y < 32,
        ;
        assert(0 <= q < 1024) by (nonlinear_arith)
            requires
                q == y * 32 + x,
                0 <= x < 32,
                0 <= y < 32,
        ;
    }
    data
}

/// The formats an icon file is read in.
#[derive(Clone, Copy, PartialEq, Eq, Debug)]
pub enum IconFormat {
    Png,
    Jpeg,
}

/// The icon files looked for beside the program, in order, each with the
/// format that its extension names.
pub fn icon_files() -> (r: [(&'static str, IconFormat); 3])
    ensures
        r@[0].0@ == "icon.png"@ && r@[0].1 == IconFormat::Png,
        r@[1].0@ == "icon.jpg"@ && r@[1].1 == IconFormat::Jpeg,
        r@[2].0@ == "icon.jpeg"@ && r@[2].1 == IconFormat::Jpeg,
{
    [("icon.png", IconFormat::Png), ("icon.jpg", IconFormat::Jpeg), ("icon.jpeg", IconFormat::Jpeg)]
}

/// An icon image: its width and height in pixels and its RGBA bytes, row
/// by row.
pub struct IconImage {
    pub width: u32,
    pub height: u32,
    pub rgba: Vec<u8>,
}

/// What the image crate makes of an image file's bytes read in a format,
/// converted to 8-bit RGBA: the width, the height and the bytes, or none
/// when the bytes cannot be decoded.
pub uninterp spec fn rgba_decoded(bytes: Seq<u8>, format: IconFormat) -> Option<(u32, u32, Seq<u8>)>;

/// Decodes an image file's bytes to RGBA.
///
/// Trusted: calls `image::load_from_memory_with_format` with the format,
/// then `to_rgba8`, `dimensions` and `into_raw`; the contract claims only
/// that the result is `rgba_decoded` of the bytes and the format, a
/// function of these alone.
#[verifier::external_body]
fn decode_rgba(bytes: &[u8], format: IconFormat) -> (r: Option<IconImage>)
    ensures
        r matches Some(i) ==> rgba_decoded(bytes@, format) == Some((i.width, i.height, i.rgba@)),
        r is None ==> rgba_decoded(bytes@, format) is None,
{
    let format = match format {
        IconFormat::Png => image::ImageFormat::Png,
        IconFormat::Jpeg => image::ImageFormat::Jpeg,
    };
    let img = image::load_from_memory_with_format(bytes, format).ok()?.to_rgba8();
    let (width, height) = img.dimensions();
    Some(IconImage { width, height, rgba: img.into_raw() })
}

/// The icon that an image file's bytes give, read in the format that its
/// extension names; none when they cannot be decoded.
pub fn decode_icon(bytes: &[u8], format: IconFormat) -> (r: Option<IconImage>)
    ensures
        r matches Some(i) ==> rgba_decoded(bytes@, format) == Some((i.width, i.height, i.rgba@)),
        r is None ==> rgba_decoded(bytes@, format) is None,
{
    decode_rgba(bytes, format)
}

/// The drawn icon: 32 by 32 pixels of `fallback_icon_rgba`.
pub fn fallback_icon() -> (r: IconImage)
    ensures
        r.width == ICON_SIZE,
        r.height == ICON_SIZE,
        r.rgba@.len() == 32 * 32 * 4,
        forall|y: int, x: int, c: int|
            0 <= y < 32 && 0 <= x < 32 && 0 <= c < 4 ==> #[trigger] r.rgba@[(y * 32 + x) * 4 + c]
                == icon_channel(x, y, c),
{
    IconImage { width: ICON_SIZE, height: ICON_SIZE, rgba: fallback_icon_rgba() }
}

} // verus!
