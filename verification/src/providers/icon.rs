//! Application icons as `data:` URLs: the pixels the caller drew, reordered,
//! encoded as PNG and then as base64.
use vstd::prelude::*;
use crate::text::{concat_str, owned};
use base64::Engine;
use image::ImageEncoder;

verus! {

/// The PNG file that `image`'s PNG encoder writes for 8-bit RGBA pixels of
/// the given size, or none when it fails.
pub uninterp spec fn png_rgba8(pixels: Seq<u8>, width: u32, height: u32) -> Option<Seq<u8>>;

/// The standard base64 text (RFC 4648 alphabet, with padding) of some bytes.
pub uninterp spec fn base64_standard(bytes: Seq<u8>) -> Seq<char>;

/// Encodes RGBA pixels as PNG (`image::codecs::png::PngEncoder::write_image`
/// with `ColorType::Rgba8`); the result is named by `png_rgba8`. The encoder
/// panics unless the buffer holds exactly `width * height * 4` bytes.
#[verifier::external_body]
fn encode_png(pixels: &Vec<u8>, width: u32, height: u32) -> (r: Option<Vec<u8>>)
    requires
        pixels@.len() == width as int * height as int * 4,
    ensures
        match r {
            Some(png) => png_rgba8(pixels@, width, height) == Some(png@),
            None => png_rgba8(pixels@, width, height) is None,
        },
{
    let mut png = Vec::new();
    let encoded = image::codecs::png::PngEncoder::new(&mut png).write_image(
        pixels,
        width,
        height,
        image::ColorType::Rgba8.into(),
    );
    encoded.ok().map(|_| png)
}

/// Encodes bytes as standard base64 (`base64::engine::general_purpose::STANDARD.encode`);
/// the result is named by `base64_standard`. The encoder panics when the
/// length of its output would overflow `usize`, so the input is bounded.
#[verifier::external_body]
fn encode_base64(bytes: &Vec<u8>) -> (r: String)
    requires
        bytes@.len() <= usize::MAX / 2,
    ensures
        r@ == base64_standard(bytes@),
{
    base64::engine::general_purpose::STANDARD.encode(bytes)
}

/// Pixels stored blue, green, red, alpha, reordered red, green, blue, alpha.
pub open spec fn bgra_to_rgba(b: Seq<u8>) -> Seq<u8> {
    Seq::new(
        b.len(),
        |i: int|
            {
                let base = i - i % 4;
                if i % 4 == 0 {
                    b[base + 2]
                } else if i % 4 == 1 {
                    b[base + 1]
                } else if i % 4 == 2 {
                    b[base]
                } else {
                    b[base + 3]
                }
            },
    )
}

/// Reorders pixels from BGRA to RGBA.
pub fn rgba_from_bgra(bgra: &Vec<u8>) -> (r: Vec<u8>)
    requires
        bgra@.len() % 4 == 0,
    ensures
        r@ == bgra_to_rgba(bgra@),
{
    let mut out: Vec<u8> = Vec::new();
    let mut k: usize = 0;
    while k < bgra.len()
        invariant
            k <= bgra.len(),
            k % 4 == 0,
            bgra@.len() % 4 == 0,
            out@.len() == k,
            forall|i: int| 0 <= i < k ==> out@[i] == #[trigger] bgra_to_rgba(bgra@)[i],
        decreases bgra.len() - k,
    {
        out.push(bgra[k + 2]);
        out.push(bgra[k + 1]);
        out.push(bgra[k]);
        out.push(bgra[k + 3]);
        proof {
            assert forall|i: int| k <= i < k + 4 implies out@[i] == #[trigger] bgra_to_rgba(bgra@)[i] by {
                assert(i - i % 4 == k) by (nonlinear_arith)
                    requires
                        k <= i < k + 4,
                        k % 4 == 0,
                ;
            }
        }
        k = k + 4;
    }
    assert(out@ =~= bgra_to_rgba(bgra@));
    out
}

/// The `data:` URL of an icon whose square of `size` pixels the caller drew
/// as BGRA: the pixels as PNG in base64, or none when encoding fails.
pub fn icon_data_url(bgra: &Vec<u8>, size: u32) -> (r: Option<String>)
    requires
        bgra@.len() == size as int * size as int * 4,
    ensures
        match png_rgba8(bgra_to_rgba(bgra@), size, size) {
            Some(png) => if png.len() <= usize::MAX / 2 {
                r matches Some(url) && url@ == "data:image/png;base64,"@ + base64_standard(png)
            } else {
                r is None
            },
            None => r is None,
        },
{
    assert(bgra@.len() % 4 == 0) by (nonlinear_arith)
        requires
            bgra@.len() == size as int * size as int * 4,
    ;
    let rgba = rgba_from_bgra(bgra);
    let png = match encode_png(&rgba, size, size) {
        Some(p) => p,
        None => {
            return None;
        },
    };
    if png.len() > usize::MAX / 2 {
        return None;
    }
    let text = encode_base64(&png);
    Some(concat_str("data:image/png;base64,", text.as_str()))
}

} // verus!
