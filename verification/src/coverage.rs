//! Coverage of masks: how much of a layer each pixel lets through, from 0
//! (hidden) to 255 (shown). One mask covers as its red channel says, or
//! the opposite when it is inverted; the active masks of a layer combine
//! by multiplying their coverages (a pixel outside a smaller mask is
//! hidden).

use crate::model::LayerMask;
use crate::raster::{Raster, image_height, image_width};
use vstd::prelude::*;

verus! {

/// The samples of an image converted to 8-bit RGBA, four per pixel (red,
/// green, blue, alpha), row by row (`DynamicImage::to_rgba8`, then
/// `ImageBuffer::into_raw`).
pub uninterp spec fn rgba_samples(img: image::DynamicImage) -> Seq<u8>;

/// `image::DynamicImage::to_rgba8` then `ImageBuffer::into_raw`: the
/// image's samples as 8-bit RGBA. The buffer holds at least four samples
/// per pixel of the image (the image crate checks a buffer against that
/// length when it builds it).
#[verifier::external_body]
fn rgba_bytes(img: &image::DynamicImage) -> (samples: Vec<u8>)
    ensures
        samples@ == rgba_samples(*img),
        samples@.len() >= 4 * image_width(*img) * image_height(*img),
{
    img.to_rgba8().into_raw()
}

/// A coverage of `width` × `height` pixels: one value per pixel, row by
/// row.
pub struct Coverage {
    pub width: u32,
    pub height: u32,
    pub values: Vec<u8>,
}

impl Coverage {
    /// The coverage as its size and its values.
    pub open spec fn as_tuple(self) -> (u32, u32, Seq<u8>) {
        (self.width, self.height, self.values@)
    }
}

/// Whether a coverage of this size can be built (its RGBA image would
/// fit in memory).
pub open spec fn cover_fits(width: u32, height: u32) -> bool {
    width as int * height as int * 4 <= usize::MAX as int
}

/// The coverage of a mask: the red sample of each pixel, or 255 minus it
/// when the mask is inverted.
pub open spec fn mask_cover(m: LayerMask) -> (u32, u32, Seq<u8>) {
    let w = m.image.width;
    let h = m.image.height;
    let s = rgba_samples(*m.image.pixels);
    (
        w,
        h,
        Seq::new(
            (w * h) as nat,
            |k: int|
                if m.inverted {
                    (255 - s[4 * k]) as u8
                } else {
                    s[4 * k]
                },
        ),
    )
}

/// The value of a coverage at `(x, y)`; 0 outside it.
pub open spec fn cover_at(c: (u32, u32, Seq<u8>), x: int, y: int) -> int {
    if 0 <= x < c.0 && 0 <= y < c.1 {
        c.2[y * c.0 + x] as int
    } else {
        0
    }
}

/// The larger of two sizes.
pub open spec fn wider(a: u32, b: u32) -> u32 {
    if a < b {
        b
    } else {
        a
    }
}

/// Two coverages multiplied, over the larger width and the larger height:
/// at each pixel, the product of the two values divided by 255.
pub open spec fn cover_product(a: (u32, u32, Seq<u8>), b: (u32, u32, Seq<u8>)) -> (u32, u32, Seq<u8>) {
    let w = wider(a.0, b.0);
    let h = wider(a.1, b.1);
    (
        w,
        h,
        Seq::new(
            (w * h) as nat,
            |k: int| ((cover_at(a, k % w as int, k / w as int) * cover_at(b, k % w as int, k / w as int)) / 255) as u8,
        ),
    )
}

/// The combined coverage of the active masks, in list order: `None` when
/// no mask is on.
pub open spec fn combined_cover(ms: Seq<LayerMask>) -> Option<(u32, u32, Seq<u8>)>
    decreases ms.len(),
{
    if ms.len() == 0 {
        None
    } else {
        let before = combined_cover(ms.drop_last());
        let m = ms.last();
        if !m.enabled {
            before
        } else {
            match before {
                None => Some(mask_cover(m)),
                Some(c) => Some(cover_product(c, mask_cover(m))),
            }
        }
    }
}

/// Whether the coverages of a list of masks can be combined: each image
/// knows its size, and the widest active mask times the highest one fits.
pub open spec fn masks_combine(ms: Seq<LayerMask>) -> bool {
    &&& forall|i: int| 0 <= i < ms.len() ==> (#[trigger] ms[i]).image.wf()
    &&& forall|i: int, j: int|
        0 <= i < ms.len() && 0 <= j < ms.len() && ms[i].enabled && ms[j].enabled ==> cover_fits(
            #[trigger] ms[i].image.width,
            #[trigger] ms[j].image.height,
        )
}

/// The coverage of one mask.
pub fn mask_coverage(m: &LayerMask) -> (c: Coverage)
    requires
        m.image.wf(),
        cover_fits(m.image.width, m.image.height),
    ensures
        c.as_tuple() == mask_cover(*m),
{
    let samples = rgba_bytes(&m.image.pixels);
    let w = m.image.width;
    let h = m.image.height;
    let n = (w as usize) * (h as usize);
    assert(4 * w * h == 4 * n) by (nonlinear_arith)
        requires
            n == w * h,
    ;
    let slen = samples.len();
    let mut values: Vec<u8> = Vec::new();
    let mut k: usize = 0;
    while k < n
        invariant
            k <= n,
            n == w * h,
            slen == samples@.len(),
            w == m.image.width,
            h == m.image.height,
            samples@ == rgba_samples(*m.image.pixels),
            samples@.len() >= 4 * n,
            values@.len() == k,
            forall|i: int| 0 <= i < k ==> #[trigger] values@[i] == mask_cover(*m).2[i],
        decreases n - k,
    {
        let v = samples[4 * k];
        let c = if m.inverted {
            255 - v
        } else {
            v
        };
        assert(c == mask_cover(*m).2[k as int]);
        values.push(c);
        k += 1;
    }
    let c = Coverage { width: w, height: h, values };
    assert(c.values@ =~= mask_cover(*m).2);
    c
}

/// The value of a coverage at `(x, y)`; 0 outside it.
fn value_at(c: &Coverage, x: usize, y: usize) -> (v: u8)
    requires
        c.values@.len() == c.width * c.height,
    ensures
        v as int == cover_at(c.as_tuple(), x as int, y as int),
{
    if x < c.width as usize && y < c.height as usize {
        let w = c.width as usize;
        let len = c.values.len();
        assert(y * w + x < c.width * c.height) by (nonlinear_arith)
            requires
                x < w,
                y < c.height,
                w == c.width,
        ;
        assert(y * w + x < len);
        c.values[y * w + x]
    } else {
        0
    }
}

/// Two coverages multiplied (see `cover_product`).
pub fn multiply_coverage(a: &Coverage, b: &Coverage) -> (c: Coverage)
    requires
        a.values@.len() == a.width * a.height,
        b.values@.len() == b.width * b.height,
        cover_fits(wider(a.width, b.width), wider(a.height, b.height)),
    ensures
        c.as_tuple() == cover_product(a.as_tuple(), b.as_tuple()),
{
    let w = if a.width < b.width {
        b.width
    } else {
        a.width
    };
    let h = if a.height < b.height {
        b.height
    } else {
        a.height
    };
    let n = (w as usize) * (h as usize);
    let ghost target = cover_product(a.as_tuple(), b.as_tuple());
    let mut values: Vec<u8> = Vec::new();
    let mut k: usize = 0;
    while k < n
        invariant
            k <= n,
            n == w * h,
            w == wider(a.width, b.width),
            h == wider(a.height, b.height),
            a.values@.len() == a.width * a.height,
            b.values@.len() == b.width * b.height,
            target == cover_product(a.as_tuple(), b.as_tuple()),
            values@.len() == k,
            forall|i: int| 0 <= i < k ==> #[trigger] values@[i] == target.2[i],
        decreases n - k,
    {
        let x = k % (w as usize);
        let y = k / (w as usize);
        let av = value_at(a, x, y) as u32;
        let bv = value_at(b, x, y) as u32;
        assert(av * bv <= 255 * 255) by (nonlinear_arith)
            requires
                av <= 255,
                bv <= 255,
        ;
        let v = (av * bv / 255) as u8;
        values.push(v);
        k += 1;
    }
    let c = Coverage { width: w, height: h, values };
    assert(c.values@ =~= target.2);
    c
}

/// The combined coverage of the active masks (see `combined_cover`):
/// `None` when no mask is on.
pub fn combined_mask_coverage(masks: &[LayerMask]) -> (r: Option<Coverage>)
    requires
        masks_combine(masks@),
    ensures
        match r {
            Some(c) => combined_cover(masks@) == Some(c.as_tuple()),
            None => combined_cover(masks@) is None,
        },
{
    let mut cover: Option<Coverage> = None;
    let ghost mut wi: int = 0;
    let ghost mut hi: int = 0;
    let mut k: usize = 0;
    while k < masks.len()
        invariant
            k <= masks@.len(),
            masks_combine(masks@),
            match cover {
                Some(c) => {
                    &&& combined_cover(masks@.take(k as int)) == Some(c.as_tuple())
                    &&& c.values@.len() == c.width * c.height
                    &&& 0 <= wi < k && masks@[wi].enabled && c.width == masks@[wi].image.width
                    &&& 0 <= hi < k && masks@[hi].enabled && c.height == masks@[hi].image.height
                },
                None => combined_cover(masks@.take(k as int)) is None,
            },
        decreases masks@.len() - k,
    {
        let m = &masks[k];
        assert(masks@.take(k + 1).drop_last() =~= masks@.take(k as int));
        assert(masks@.take(k + 1).last() == masks@[k as int]);
        if m.enabled {
            assert(masks@[k as int].image.wf());
            assert(cover_fits(masks@[k as int].image.width, masks@[k as int].image.height));
            let mc = mask_coverage(m);
            assert(mc.values@.len() == mc.width * mc.height);
            match cover {
                None => {
                    proof {
                        wi = k as int;
                        hi = k as int;
                    }
                    cover = Some(mc);
                },
                Some(c) => {
                    let ghost ct = c.as_tuple();
                    proof {
                        let nwi = if c.width < mc.width { k as int } else { wi };
                        let nhi = if c.height < mc.height { k as int } else { hi };
                        assert(cover_fits(masks@[nwi].image.width, masks@[nhi].image.height));
                        wi = nwi;
                        hi = nhi;
                    }
                    let p = multiply_coverage(&c, &mc);
                    assert(p.values@.len() == p.width * p.height);
                    cover = Some(p);
                },
            }
        }
        k += 1;
    }
    assert(masks@.take(masks@.len() as int) =~= masks@);
    cover
}

} // verus!
