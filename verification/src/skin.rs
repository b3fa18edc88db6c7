use vstd::prelude::*;

use crate::text;

verus! {

/// The RGBA pixels (width, height, row-major bytes) of an encoded image.
pub uninterp spec fn spec_decode_rgba(data: Seq<u8>) -> Option<(u32, u32, Seq<u8>)>;

/// `image::load_from_memory` followed by `to_rgba8`: decodes an image and
/// returns its width, height and RGBA bytes (four per pixel, row by row, as
/// `ImageBuffer::into_raw` documents). The pixels are named by
/// `spec_decode_rgba`; the text of a decoding error is not stated.
#[verifier::external_body]
fn decode_rgba(data: &[u8]) -> (res: Result<(u32, u32, Vec<u8>), String>)
    ensures
        match res {
            Ok((w, h, px)) => spec_decode_rgba(data@) == Some((w, h, px@)) && px@.len() == (w as int)
                * (h as int) * 4,
            Err(_) => spec_decode_rgba(data@) is None,
        },
{
    match image::load_from_memory(data) {
        Ok(img) => {
            let rgba = img.to_rgba8();
            Ok((rgba.width(), rgba.height(), rgba.into_raw()))
        },
        Err(e) => Err(e.to_string()),
    }
}

/// The byte offset of pixel `(x, y)` in an image `w` pixels wide.
pub open spec fn offset(w: int, x: int, y: int) -> int {
    (y * w + x) * 4
}

/// Byte `k` of the head icon made from a skin `w` pixels wide: pixel `k / 4`
/// of a 64x64 picture, each skin pixel of the 8x8 face (at 8,8) scaled eight
/// times, the hat layer (at 40,8) drawn over it where its alpha is above 16,
/// always opaque.
pub open spec fn head_byte(w: int, px: Seq<u8>, k: int) -> u8 {
    let p = k / 4;
    let c = k % 4;
    let sx = (p % 64) / 8;
    let sy = (p / 64) / 8;
    let hat = offset(w, 40 + sx, 8 + sy);
    let base = offset(w, 8 + sx, 8 + sy);
    if c == 3 {
        255
    } else if px[hat + 3] > 16 {
        px[hat + c]
    } else {
        px[base + c]
    }
}

proof fn lemma_offsets(w: int, h: int, sx: int, sy: int)
    requires
        w >= 64,
        h >= 32,
        0 <= sx < 8,
        0 <= sy < 8,
    ensures
        0 <= offset(w, 8 + sx, 8 + sy),
        offset(w, 8 + sx, 8 + sy) + 3 < w * h * 4,
        0 <= offset(w, 40 + sx, 8 + sy),
        offset(w, 40 + sx, 8 + sy) + 3 < w * h * 4,
{
    assert((8 + sy) * w + 48 <= (9 + sy) * w) by (nonlinear_arith)
        requires
            w >= 64,
            0 <= sy,
    ;
    assert((9 + sy) * w <= h * w) by (nonlinear_arith)
        requires
            9 + sy <= h,
            w >= 0,
    ;
    assert(0 <= (8 + sy) * w) by (nonlinear_arith)
        requires
            w >= 0,
            0 <= sy,
    ;
    assert(h * w * 4 == w * h * 4) by (nonlinear_arith);
}

/// The 64x64 RGBA head icon of a skin `w` pixels wide and `h` high, given its
/// RGBA bytes: an error naming the size when it is smaller than 64x32.
pub fn head_from_pixels(w: u32, h: u32, px: &Vec<u8>) -> (res: Result<Vec<u8>, String>)
    requires
        px@.len() == (w as int) * (h as int) * 4,
    ensures
        if w < 64 || h < 32 {
            res matches Err(m) && m@ == "unexpected skin size "@ + text::dec(w as nat) + "x"@
                + text::dec(h as nat)
        } else {
            res matches Ok(icon) && icon@.len() == 64 * 64 * 4 && forall|k: int|
                0 <= k < 64 * 64 * 4 ==> #[trigger] icon@[k] == head_byte(w as int, px@, k)
        },
{
    if w < 64 || h < 32 {
        let mut m = text::concat3("unexpected skin size ", text::u64_to_string(w as u64).as_str(), "x");
        text::push_str(&mut m, text::u64_to_string(h as u64).as_str());
        return Err(m);
    }
    let plen = px.len();
    let mut icon: Vec<u8> = Vec::new();
    let mut p: usize = 0;
    while p < 4096
        invariant
            p <= 4096,
            w >= 64,
            h >= 32,
            px@.len() == (w as int) * (h as int) * 4,
            plen == px@.len(),
            icon@.len() == p * 4,
            forall|k: int| 0 <= k < p * 4 ==> #[trigger] icon@[k] == head_byte(w as int, px@, k),
        decreases 4096 - p,
    {
        let sx: usize = (p % 64) / 8;
        let sy: usize = (p / 64) / 8;
        assert(sx < 8 && sy < 8);
        proof {
            lemma_offsets(w as int, h as int, sx as int, sy as int);
            assert((8 + sy as int) * (w as int) <= 16 * 0xffff_ffff) by (nonlinear_arith)
                requires
                    sy < 8,
                    w <= 0xffff_ffff,
            ;
        }
        let row: u64 = (8 + sy as u64) * (w as u64);
        let base = ((row + 8 + sx as u64) * 4) as usize;
        let hat = ((row + 40 + sx as u64) * 4) as usize;
        assert(row as int == (8 + sy as int) * (w as int));
        assert((row + 8 + sx) * 4 == offset(w as int, 8 + sx, 8 + sy));
        assert((row + 40 + sx) * 4 == offset(w as int, 40 + sx, 8 + sy));
        assert(px@.len() <= usize::MAX);
        assert(base as int == offset(w as int, 8 + sx, 8 + sy));
        assert(hat as int == offset(w as int, 40 + sx, 8 + sy));
        let src = if px[hat + 3] > 16 {
            hat
        } else {
            base
        };
        let ghost before = icon@;
        icon.push(px[src]);
        icon.push(px[src + 1]);
        icon.push(px[src + 2]);
        icon.push(255);
        assert forall|k: int| 0 <= k < (p + 1) * 4 implies #[trigger] icon@[k] == head_byte(w as int, px@, k) by {
            if k >= p * 4 {
                assert(k / 4 == p);
                assert(k % 4 == k - p * 4);
            } else {
                assert(icon@[k] == before[k]);
            }
        }
        p = p + 1;
    }
    Ok(icon)
}

/// Crops the face (with its hat layer) out of a skin image and scales it to a
/// 64x64 RGBA icon. Errors: the image cannot be decoded; it is smaller than
/// 64x32.
pub fn head_from_skin(png: &[u8]) -> (res: Result<Vec<u8>, String>)
    ensures
        match spec_decode_rgba(png@) {
            None => res matches Err(m) && text::spec_starts_with(m@, "cannot decode skin: "@),
            Some((w, h, px)) => if w < 64 || h < 32 {
                res matches Err(m) && m@ == "unexpected skin size "@ + text::dec(w as nat) + "x"@ + text::dec(h as nat)
            } else {
                res matches Ok(icon) && icon@.len() == 64 * 64 * 4 && forall|k: int|
                    0 <= k < 64 * 64 * 4 ==> #[trigger] icon@[k] == head_byte(w as int, px, k)
            },
        },
{
    match decode_rgba(png) {
        Ok((w, h, px)) => head_from_pixels(w, h, &px),
        Err(e) => {
            let m = text::concat2("cannot decode skin: ", e.as_str());
            proof {
                reveal_strlit("cannot decode skin: ");
                assert(m@.subrange(0, "cannot decode skin: "@.len() as int) =~= "cannot decode skin: "@);
            }
            Err(m)
        },
    }
}

} // verus!
