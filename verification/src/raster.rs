//! Images as plain bytes: RGB images padded with a white border, and RGBA
//! screenshots decoded from PNG, read pixel by pixel and cropped.
use vstd::prelude::*;
use vstd::arithmetic::div_mod::lemma_fundamental_div_mod_converse;

verus! {

/// An RGB image: three bytes per pixel, row by row.
pub struct RgbPixels {
    pub width: u32,
    pub height: u32,
    pub data: Vec<u8>,
}

impl RgbPixels {
    /// The bytes are exactly the image's pixels.
    pub open spec fn wf(&self) -> bool {
        self.data@.len() == (self.width as int) * (self.height as int) * 3
    }

    /// Channel `c` of the pixel at `(x, y)`.
    pub open spec fn byte_at(&self, x: int, y: int, c: int) -> u8 {
        self.data@[(y * self.width + x) * 3 + c]
    }
}

/// Channel `c` at `(x, y)` of the image padded by `p` white pixels on
/// every side.
pub open spec fn padded_byte(img: RgbPixels, p: int, x: int, y: int, c: int) -> u8 {
    if p <= x < p + img.width && p <= y < p + img.height {
        img.byte_at(x - p, y - p, c)
    } else {
        255
    }
}

/// Byte `k` of the padded image, `wide` pixels to a row.
spec fn padded_at(img: RgbPixels, p: int, wide: int, k: int) -> u8 {
    padded_byte(img, p, (k / 3) % wide, (k / 3) / wide, k % 3)
}

proof fn lemma_cell_below(a: int, b: int, w: int, h: int, n: int)
    by (nonlinear_arith)
    requires
        0 <= a < h,
        0 <= b < w,
        0 < n,
    ensures
        0 <= a * w + b < h * w,
        (a * w + b) * n + n - 1 < h * w * n,
        h * w * n == w * h * n,
{
}

proof fn lemma_position(wide: int, y: int, x: int, c: int, n: int)
    requires
        0 <= x < wide,
        0 <= y,
        0 <= c < n,
    ensures
        ((y * wide + x) * n + c) / n == y * wide + x,
        ((y * wide + x) * n + c) % n == c,
        (y * wide + x) % wide == x,
        (y * wide + x) / wide == y,
{
    lemma_fundamental_div_mod_converse((y * wide + x) * n + c, n, y * wide + x, c);
    lemma_fundamental_div_mod_converse(y * wide + x, wide, y, x);
}

/// Pads an image with `padding` white pixels on every side; no padding
/// gives a copy.
pub fn pad_image(img: &RgbPixels, padding: u32) -> (r: RgbPixels)
    requires
        img.wf(),
        img.width + 2 * padding <= u32::MAX,
        img.height + 2 * padding <= u32::MAX,
        (img.width + 2 * padding) * (img.height + 2 * padding) * 3 <= usize::MAX,
    ensures
        r.wf(),
        r.width == img.width + 2 * padding,
        r.height == img.height + 2 * padding,
        forall|x: int, y: int, c: int|
            0 <= x < r.width && 0 <= y < r.height && 0 <= c < 3 ==> #[trigger] r.byte_at(x, y, c)
                == padded_byte(*img, padding as int, x, y, c),
{
    let w = img.width;
    let h = img.height;
    if padding == 0 {
        let data = img.data.clone();
        assert(data@ =~= img.data@);
        return RgbPixels { width: w, height: h, data };
    }
    let n_bytes: usize = img.data.len();
    let wide = w + 2 * padding;
    let high = h + 2 * padding;
    let ghost p = padding as int;
    let mut data: Vec<u8> = Vec::new();
    let mut y: u32 = 0;
    while y < high
        invariant
            0 <= y <= high,
            w == img.width && h == img.height && img.wf(),
            n_bytes == img.data@.len(),
            wide == w + 2 * padding && high == h + 2 * padding,
            p == padding as int,
            (wide as int) * (high as int) * 3 <= usize::MAX,
            data@.len() == (y as int) * (wide as int) * 3,
            forall|k: int| 0 <= k < data@.len() ==> #[trigger] data@[k] == padded_at(*img, p, wide as int, k),
        decreases high - y,
    {
        let mut x: u32 = 0;
        while x < wide
            invariant
                0 <= y < high,
                0 <= x <= wide,
                w == img.width && h == img.height && img.wf(),
                n_bytes == img.data@.len(),
                wide == w + 2 * padding && high == h + 2 * padding,
                p == padding as int,
                (wide as int) * (high as int) * 3 <= usize::MAX,
                data@.len() == ((y as int) * (wide as int) + x) * 3,
                forall|k: int| 0 <= k < data@.len() ==> #[trigger] data@[k] == padded_at(*img, p, wide as int, k),
            decreases wide - x,
        {
            proof {
                lemma_cell_below(y as int, x as int, wide as int, high as int, 3);
            }
            let inside = x >= padding && x < padding + w && y >= padding && y < padding + h;
            let mut c: usize = 0;
            while c < 3
                invariant
                    0 <= y < high,
                    0 <= x < wide,
                    0 <= c <= 3,
                    w == img.width && h == img.height && img.wf(),
                    wide == w + 2 * padding && high == h + 2 * padding,
                    p == padding as int,
                    inside == (p <= x < p + w && p <= y < p + h),
                    n_bytes == img.data@.len(),
                    ((y as int) * (wide as int) + x) * 3 + 2 < (high as int) * (wide as int) * 3,
                    (wide as int) * (high as int) * 3 <= usize::MAX,
                    data@.len() == ((y as int) * (wide as int) + x) * 3 + c,
                    forall|k: int| 0 <= k < data@.len() ==> #[trigger] data@[k] == padded_at(*img, p, wide as int, k),
                decreases 3 - c,
            {
                proof {
                    lemma_position(wide as int, y as int, x as int, c as int, 3);
                }
                let ghost k = data@.len() as int;
                let b: u8 = if inside {
                    let sy = (y - padding) as usize;
                    let sx = (x - padding) as usize;
                    proof {
                        lemma_cell_below(sy as int, sx as int, w as int, h as int, 3);
                        assert((h as int) * (w as int) * 3 == (w as int) * (h as int) * 3) by (nonlinear_arith);
                    }
                    let idx = (sy * (w as usize) + sx) * 3 + c;
                    img.data[idx]
                } else {
                    255
                };
                assert(b == padded_at(*img, p, wide as int, k));
                data.push(b);
                c = c + 1;
            }
            x = x + 1;
        }
        assert(((y as int) * (wide as int) + wide) * 3 == ((y + 1) as int) * (wide as int) * 3) by (nonlinear_arith);
        y = y + 1;
    }
    assert((high as int) * (wide as int) * 3 == (wide as int) * (high as int) * 3) by (nonlinear_arith);
    let r = RgbPixels { width: wide, height: high, data };
    assert forall|x: int, y: int, c: int|
        0 <= x < r.width && 0 <= y < r.height && 0 <= c < 3 implies #[trigger] r.byte_at(x, y, c)
        == padded_byte(*img, padding as int, x, y, c) by {
        lemma_cell_below(y, x, wide as int, high as int, 3);
        lemma_position(wide as int, y, x, c, 3);
        let k = (y * wide + x) * 3 + c;
        assert(r.data@[k] == padded_at(*img, p, wide as int, k));
    }
    r
}

/// An RGBA image: four bytes per pixel, row by row.
pub struct RgbaPixels {
    pub width: u32,
    pub height: u32,
    pub data: Vec<u8>,
}

impl RgbaPixels {
    /// The bytes are exactly the image's pixels.
    pub open spec fn wf(&self) -> bool {
        self.data@.len() == (self.width as int) * (self.height as int) * 4
    }

    /// Channel `c` (red, green, blue, alpha) of the pixel at `(x, y)`.
    pub open spec fn byte_at(&self, x: int, y: int, c: int) -> u8 {
        self.data@[(y * self.width + x) * 4 + c]
    }
}

/// What decoding `bytes` as PNG gives: the width, the height and the RGBA
/// bytes of the image, or nothing when the bytes are no PNG image.
pub uninterp spec fn png_rgba(bytes: Seq<u8>) -> Option<(u32, u32, Seq<u8>)>;

/// Decodes PNG bytes into width, height and RGBA bytes.
///
/// Calls `image::load` with `ImageFormat::Png` on the bytes, then
/// `DynamicImage::to_rgba8`, and hands out the buffer's dimensions and its
/// raw bytes; a decoding error gives `None`. The contract only names the
/// result (`png_rgba` of the bytes): decoding depends on the bytes alone.
#[verifier::external_body]
pub(crate) fn decode_png_rgba(bytes: &Vec<u8>) -> (r: Option<(u32, u32, Vec<u8>)>)
    ensures
        match r {
            Some(t) => png_rgba(bytes@) == Some((t.0, t.1, t.2@)),
            None => png_rgba(bytes@) is None,
        },
{
    match image::load(std::io::Cursor::new(bytes.as_slice()), image::ImageFormat::Png) {
        Ok(img) => {
            let rgba = img.to_rgba8();
            let (w, h) = rgba.dimensions();
            Some((w, h, rgba.into_raw()))
        },
        Err(_) => None,
    }
}

/// The red, green and blue bytes of the pixel at `(x, y)`.
pub fn pixel_rgb(img: &RgbaPixels, x: u32, y: u32) -> (r: (u8, u8, u8))
    requires
        img.wf(),
        x < img.width,
        y < img.height,
    ensures
        r == (img.byte_at(x as int, y as int, 0), img.byte_at(x as int, y as int, 1), img.byte_at(
            x as int,
            y as int,
            2,
        )),
{
    let n_bytes: usize = img.data.len();
    proof {
        lemma_cell_below(y as int, x as int, img.width as int, img.height as int, 4);
    }
    assert(n_bytes == img.data@.len());
    let k = ((y as usize) * (img.width as usize) + (x as usize)) * 4;
    (img.data[k], img.data[k + 1], img.data[k + 2])
}

/// Byte `k` of the `w` pixels wide crop at `(x, y)`.
spec fn crop_at(img: RgbaPixels, x: int, y: int, w: int, k: int) -> u8 {
    img.byte_at(x + (k / 4) % w, y + (k / 4) / w, k % 4)
}

/// The `w` by `h` part of the image whose top left corner is `(x, y)`.
pub fn crop(img: &RgbaPixels, x: u32, y: u32, w: u32, h: u32) -> (r: RgbaPixels)
    requires
        img.wf(),
        x + w <= img.width,
        y + h <= img.height,
    ensures
        r.wf(),
        r.width == w,
        r.height == h,
        forall|i: int, j: int, c: int|
            0 <= i < w && 0 <= j < h && 0 <= c < 4 ==> #[trigger] r.byte_at(i, j, c)
                == img.byte_at(x + i, y + j, c),
{
    let n_bytes: usize = img.data.len();
    let mut data: Vec<u8> = Vec::new();
    let mut j: u32 = 0;
    while j < h
        invariant
            0 <= j <= h,
            img.wf(),
            n_bytes == img.data@.len(),
            x + w <= img.width,
            y + h <= img.height,
            data@.len() == (j as int) * (w as int) * 4,
            forall|k: int| 0 <= k < data@.len() ==> #[trigger] data@[k] == crop_at(*img, x as int, y as int, w as int, k),
        decreases h - j,
    {
        let mut i: u32 = 0;
        while i < w
            invariant
                0 <= j < h,
                0 <= i <= w,
                img.wf(),
                n_bytes == img.data@.len(),
                x + w <= img.width,
                y + h <= img.height,
                data@.len() == ((j as int) * (w as int) + i) * 4,
                forall|k: int| 0 <= k < data@.len() ==> #[trigger] data@[k] == crop_at(*img, x as int, y as int, w as int, k),
            decreases w - i,
        {
            let sy = y + j;
            let sx = x + i;
            proof {
                lemma_cell_below(sy as int, sx as int, img.width as int, img.height as int, 4);
            }
            let base = ((sy as usize) * (img.width as usize) + (sx as usize)) * 4;
            let mut c: usize = 0;
            while c < 4
                invariant
                    0 <= j < h,
                    0 <= i < w,
                    0 <= c <= 4,
                    img.wf(),
                    sy == y + j,
                    sx == x + i,
                    base == ((sy as int) * (img.width as int) + sx) * 4,
                    base + 3 < img.data@.len(),
                    data@.len() == ((j as int) * (w as int) + i) * 4 + c,
                    forall|k: int| 0 <= k < data@.len() ==> #[trigger] data@[k] == crop_at(*img, x as int, y as int, w as int, k),
                decreases 4 - c,
            {
                proof {
                    lemma_position(w as int, j as int, i as int, c as int, 4);
                }
                let ghost k = data@.len() as int;
                let b = img.data[base + c];
                assert(b == crop_at(*img, x as int, y as int, w as int, k));
                data.push(b);
                c = c + 1;
            }
            i = i + 1;
        }
        assert(((j as int) * (w as int) + w) * 4 == ((j + 1) as int) * (w as int) * 4) by (nonlinear_arith);
        j = j + 1;
    }
    assert((h as int) * (w as int) * 4 == (w as int) * (h as int) * 4) by (nonlinear_arith);
    let r = RgbaPixels { width: w, height: h, data };
    assert forall|i: int, j: int, c: int|
        0 <= i < w && 0 <= j < h && 0 <= c < 4 implies #[trigger] r.byte_at(i, j, c)
        == img.byte_at(x + i, y + j, c) by {
        lemma_cell_below(j, i, w as int, h as int, 4);
        lemma_position(w as int, j, i, c, 4);
        let k = (j * w + i) * 4 + c;
        assert(r.data@[k] == crop_at(*img, x as int, y as int, w as int, k));
    }
    r
}

} // verus!
