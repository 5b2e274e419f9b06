//! The integer and text parts of text recognition: the recognizer's key
//! table, greedy CTC decoding, the detector's input size, and mapping boxes
//! back out of the padded image.
use vstd::prelude::*;
use crate::text::{lines_of, split_lines, string_views};
use vstd::arithmetic::div_mod::lemma_fundamental_div_mod_converse;
use crate::raster::{padded_byte, RgbPixels};

verus! {

broadcast use vstd::string::group_string_axioms;

/// Where a model is loaded from.
pub enum ModelSource<'a> {
    /// A file on disk.
    Path(&'a str),
    /// The model's bytes, already in memory.
    Bytes(&'a [u8]),
}

// ---------------------------------------------------------------------------
// Key table
// ---------------------------------------------------------------------------

/// The recognizer's key table for a key file: the blank `"#"` first, then
/// one key per line, then the space.
pub open spec fn key_table(content: Seq<char>) -> Seq<Seq<char>> {
    seq!["#"@] + lines_of(content) + seq![" "@]
}

/// Builds the key table from the text of a key file.
pub fn keys_from_content(content: &str) -> (keys: Vec<String>)
    ensures
        string_views(keys@) == key_table(content@),
{
    let lines = split_lines(content);
    let mut keys: Vec<String> = Vec::new();
    keys.push("#".to_string());
    let mut i: usize = 0;
    while i < lines.len()
        invariant
            0 <= i <= lines.len(),
            string_views(keys@) == seq!["#"@] + string_views(lines@).take(i as int),
        decreases lines.len() - i,
    {
        let ghost before = string_views(keys@);
        keys.push(lines[i].clone());
        assert(string_views(keys@) =~= before.push(lines@[i as int]@));
        assert(string_views(lines@).take(i + 1) =~= string_views(lines@).take(i as int).push(
            lines@[i as int]@,
        ));
        i = i + 1;
    }
    assert(string_views(lines@).take(i as int) =~= string_views(lines@));
    let ghost before = string_views(keys@);
    keys.push(" ".to_string());
    assert(string_views(keys@) =~= before.push(" "@));
    assert(string_views(keys@) =~= key_table(content@));
    keys
}

// ---------------------------------------------------------------------------
// Greedy CTC decoding
// ---------------------------------------------------------------------------

/// Time step `i` emits a character: its best class is not the blank (0), has
/// a key, and differs from the best class of the step before.
pub open spec fn ctc_emits(best: Seq<usize>, n_keys: nat, i: int) -> bool {
    &&& 0 < best[i] < n_keys
    &&& (i == 0 || best[i] != best[i - 1])
}

/// The time steps among the first `k` that emit a character.
pub open spec fn ctc_positions(best: Seq<usize>, n_keys: nat, k: nat) -> Seq<usize>
    decreases k,
{
    if k == 0 {
        seq![]
    } else {
        let p = ctc_positions(best, n_keys, (k - 1) as nat);
        if ctc_emits(best, n_keys, k - 1) {
            p.push((k - 1) as usize)
        } else {
            p
        }
    }
}

/// The text that the first `k` time steps spell.
pub open spec fn ctc_text(best: Seq<usize>, keys: Seq<Seq<char>>, k: nat) -> Seq<char>
    decreases k,
{
    if k == 0 {
        seq![]
    } else {
        let t = ctc_text(best, keys, (k - 1) as nat);
        if ctc_emits(best, keys.len(), k - 1) {
            t + keys[best[k - 1] as int]
        } else {
            t
        }
    }
}

/// A decoded text line, with the time steps that spelled it.
pub struct CtcDecoded {
    pub text: String,
    pub positions: Vec<usize>,
}

/// Greedy CTC decoding: `best[i]` is the most likely class at time step `i`.
/// Blanks, classes with no key and repeats of the step before spell nothing;
/// every other step adds its key. Returns the text and the steps that spelled
/// it (whose scores make up the line's score).
pub fn ctc_greedy_decode(best: &Vec<usize>, keys: &Vec<String>) -> (d: CtcDecoded)
    ensures
        d.text@ == ctc_text(best@, string_views(keys@), best@.len()),
        d.positions@ == ctc_positions(best@, keys@.len(), best@.len()),
{
    let ghost kv = string_views(keys@);
    let mut text = String::new();
    let mut positions: Vec<usize> = Vec::new();
    let mut last: usize = 0;
    let mut i: usize = 0;
    while i < best.len()
        invariant
            0 <= i <= best.len(),
            kv == string_views(keys@),
            kv.len() == keys@.len(),
            text@ == ctc_text(best@, kv, i as nat),
            positions@ == ctc_positions(best@, keys@.len(), i as nat),
            i == 0 ==> last == 0,
            i > 0 ==> last == best@[i - 1],
        decreases best.len() - i,
    {
        let idx = best[i];
        if idx > 0 && idx < keys.len() && idx != last {
            text.append(keys[idx].as_str());
            positions.push(i);
        }
        last = idx;
        i = i + 1;
    }
    CtcDecoded { text, positions }
}

/// Every step that spells a character spells a real key, and no two
/// neighbouring steps with the same class both spell one: a run of one class
/// gives one character.
pub proof fn lemma_ctc_runs_collapse(best: Seq<usize>, n_keys: nat, k: nat)
    requires
        k <= best.len(),
        k <= usize::MAX,
    ensures
        forall|j: int|
            0 <= j < ctc_positions(best, n_keys, k).len() ==> {
                let p = #[trigger] ctc_positions(best, n_keys, k)[j] as int;
                &&& 0 <= p < k
                &&& 0 < best[p] < n_keys
                &&& p > 0 ==> best[p] != best[p - 1]
            },
        forall|a: int, b: int|
            0 <= a < b < ctc_positions(best, n_keys, k).len() ==> ctc_positions(best, n_keys, k)[a]
                < ctc_positions(best, n_keys, k)[b],
    decreases k,
{
    if k > 0 {
        lemma_ctc_runs_collapse(best, n_keys, (k - 1) as nat);
        let p = ctc_positions(best, n_keys, (k - 1) as nat);
        if ctc_emits(best, n_keys, k - 1) {
            let q = p.push((k - 1) as usize);
            assert forall|j: int| 0 <= j < q.len() implies {
                let x = #[trigger] q[j] as int;
                &&& 0 <= x < k
                &&& 0 < best[x] < n_keys
                &&& x > 0 ==> best[x] != best[x - 1]
            } by {
                if j < p.len() {
                    assert(q[j] == p[j]);
                }
            }
            assert forall|a: int, b: int| 0 <= a < b < q.len() implies q[a] < q[b] by {
                assert(q[a] == p[a]);
                if b < p.len() {
                    assert(q[b] == p[b]);
                }
            }
        }
    }
}

/// The text that the keys of the given steps spell, in order.
pub open spec fn spelled(best: Seq<usize>, keys: Seq<Seq<char>>, positions: Seq<usize>) -> Seq<char>
    decreases positions.len(),
{
    if positions.len() == 0 {
        seq![]
    } else {
        spelled(best, keys, positions.drop_last()) + keys[best[positions.last() as int] as int]
    }
}

/// The decoded text is exactly what the returned steps spell, so a line's
/// score averages the scores of the characters it holds.
pub proof fn lemma_ctc_text_is_spelled(best: Seq<usize>, keys: Seq<Seq<char>>, k: nat)
    requires
        k <= usize::MAX,
    ensures
        ctc_text(best, keys, k) == spelled(best, keys, ctc_positions(best, keys.len(), k)),
    decreases k,
{
    if k > 0 {
        lemma_ctc_text_is_spelled(best, keys, (k - 1) as nat);
        let p = ctc_positions(best, keys.len(), (k - 1) as nat);
        if ctc_emits(best, keys.len(), k - 1) {
            assert(p.push((k - 1) as usize).drop_last() =~= p);
        }
    }
}

// ---------------------------------------------------------------------------
// Detector input size and box coordinates
// ---------------------------------------------------------------------------

/// The longest side that the detector works at: the image's longest side,
/// capped at `max_side_len`, plus the padding on both sides.
pub open spec fn spec_detection_side(max_side_len: u32, w: u32, h: u32, padding: u32) -> int {
    let longest = if w >= h {
        w
    } else {
        h
    };
    (if max_side_len <= longest {
        max_side_len
    } else {
        longest
    }) + 2 * padding
}

/// The detector's side depends on the longer side of the image only: less
/// the padding on both sides, it is the longer side when that is within
/// `max_side_len`, and `max_side_len` otherwise; never more than either.
pub proof fn lemma_detection_side_uses_longer_side(max_side_len: u32, w: u32, h: u32, padding: u32)
    ensures
        ({
            let v = spec_detection_side(max_side_len, w, h, padding) - 2 * padding;
            &&& v <= max_side_len
            &&& v <= w || v <= h
            &&& v == max_side_len || (v >= w && v >= h)
            &&& (w <= max_side_len && h <= w) ==> v == w
            &&& (h <= max_side_len && w <= h) ==> v == h
        }),
{
}

/// Computes the longest side that the detector works at.
pub fn detection_side(max_side_len: u32, w: u32, h: u32, padding: u32) -> (s: u32)
    requires
        spec_detection_side(max_side_len, w, h, padding) <= u32::MAX,
    ensures
        s == spec_detection_side(max_side_len, w, h, padding),
{
    let longest = if w >= h {
        w
    } else {
        h
    };
    let capped = if max_side_len <= longest {
        max_side_len
    } else {
        longest
    };
    capped + 2 * padding
}

/// Rounds a side down to a multiple of 32, and up to 32 when smaller.
pub fn stride_align(v: u32) -> (r: u32)
    ensures
        r % 32 == 0,
        r == if v / 32 >= 1 {
            (v / 32) * 32
        } else {
            32
        },
        r <= v || v < 32,
        v < r + 32,
{
    let q = v / 32;
    let q1 = if q >= 1 {
        q
    } else {
        1
    };
    q1 * 32
}

/// `a - b`, or zero when `b` is larger.
pub open spec fn minus_or_zero(a: u32, b: u32) -> u32 {
    if a >= b {
        (a - b) as u32
    } else {
        0
    }
}

/// Maps box corners from the padded image back to the unpadded image: each
/// coordinate loses the padding, stopping at zero.
pub fn unpad_points(points: &Vec<(u32, u32)>, padding: u32) -> (r: Vec<(u32, u32)>)
    ensures
        r@.len() == points@.len(),
        forall|i: int|
            0 <= i < r@.len() ==> #[trigger] r@[i] == (
                minus_or_zero(points@[i].0, padding),
                minus_or_zero(points@[i].1, padding),
            ),
{
    let mut r: Vec<(u32, u32)> = Vec::new();
    let mut i: usize = 0;
    while i < points.len()
        invariant
            0 <= i <= points.len(),
            r@.len() == i,
            forall|j: int|
                0 <= j < i ==> #[trigger] r@[j] == (
                    minus_or_zero(points@[j].0, padding),
                    minus_or_zero(points@[j].1, padding),
                ),
        decreases points.len() - i,
    {
        let (x, y) = points[i];
        let nx = if x >= padding {
            x - padding
        } else {
            0
        };
        let ny = if y >= padding {
            y - padding
        } else {
            0
        };
        r.push((nx, ny));
        i = i + 1;
    }
    r
}

/// Padding and unpadding agree: a pixel of the unpadded image shows in the
/// padded image `padding` pixels right of and below its own place, and
/// unpadding that place gives back the pixel's own coordinates.
pub proof fn lemma_unpad_inverts_pad(img: RgbPixels, padding: u32, x: u32, y: u32, c: int)
    requires
        x < img.width,
        y < img.height,
        0 <= c < 3,
        x + padding <= u32::MAX,
        y + padding <= u32::MAX,
    ensures
        padded_byte(img, padding as int, x + padding, y + padding, c) == img.byte_at(
            x as int,
            y as int,
            c,
        ),
        minus_or_zero((x + padding) as u32, padding) == x,
        minus_or_zero((y + padding) as u32, padding) == y,
{
}

// ---------------------------------------------------------------------------
// Box scores
// ---------------------------------------------------------------------------

/// The smaller of two numbers.
pub open spec fn min_of(a: usize, b: usize) -> usize {
    if a <= b {
        a
    } else {
        b
    }
}

/// The larger of two numbers.
pub open spec fn max_of(a: usize, b: usize) -> usize {
    if a >= b {
        a
    } else {
        b
    }
}

/// The box `(x_min, y_min, x_max, y_max)` around a contour's points in a
/// `w` by `h` score map, each coordinate read as an index (`as usize`); it
/// starts from `(w, h, 0, 0)`.
pub open spec fn bounds_of(pts: Seq<(i32, i32)>, w: usize, h: usize) -> (usize, usize, usize, usize)
    decreases pts.len(),
{
    if pts.len() == 0 {
        (w, h, 0, 0)
    } else {
        let b = bounds_of(pts.drop_last(), w, h);
        let p = pts.last();
        (
            min_of(b.0, p.0 as usize),
            min_of(b.1, p.1 as usize),
            max_of(b.2, p.0 as usize),
            max_of(b.3, p.1 as usize),
        )
    }
}

/// Computes the box around a contour's points.
pub fn contour_bounds(points: &Vec<(i32, i32)>, w: usize, h: usize) -> (b: (
    usize,
    usize,
    usize,
    usize,
))
    ensures
        b == bounds_of(points@, w, h),
{
    let mut b: (usize, usize, usize, usize) = (w, h, 0, 0);
    let mut i: usize = 0;
    assert(points@.take(0) =~= Seq::<(i32, i32)>::empty());
    while i < points.len()
        invariant
            0 <= i <= points.len(),
            b == bounds_of(points@.take(i as int), w, h),
        decreases points.len() - i,
    {
        let (px, py) = points[i];
        let x = px as usize;
        let y = py as usize;
        assert(points@.take(i + 1).drop_last() =~= points@.take(i as int));
        b = (
            if b.0 <= x { b.0 } else { x },
            if b.1 <= y { b.1 } else { y },
            if b.2 >= x { b.2 } else { x },
            if b.3 >= y { b.3 } else { y },
        );
        i = i + 1;
    }
    assert(points@.take(i as int) =~= points@);
    b
}

/// The index in a `w`-wide score map of cell `j` of a region `roi_w` wide
/// whose corner is at `(x_min, y_min)`.
pub open spec fn score_index(j: int, roi_w: int, x_min: int, y_min: int, w: int) -> int {
    (y_min + j / roi_w) * w + (x_min + j % roi_w)
}

/// The score-map indices of the region's masked cells among its first `k`
/// (row by row), leaving out indices past the map's end.
pub open spec fn masked_indices_upto(
    mask: Seq<bool>,
    roi_w: int,
    x_min: int,
    y_min: int,
    w: int,
    len: int,
    k: nat,
) -> Seq<usize>
    decreases k,
{
    if k == 0 {
        seq![]
    } else {
        let prev = masked_indices_upto(mask, roi_w, x_min, y_min, w, len, (k - 1) as nat);
        let idx = score_index(k - 1, roi_w, x_min, y_min, w);
        if mask[k - 1] && idx < len {
            prev.push(idx as usize)
        } else {
            prev
        }
    }
}

proof fn lemma_cell_position(roi_w: int, y: int, x: int)
    requires
        0 <= x < roi_w,
        0 <= y,
    ensures
        (y * roi_w + x) / roi_w == y,
        (y * roi_w + x) % roi_w == x,
{
    lemma_fundamental_div_mod_converse(y * roi_w + x, roi_w, y, x);
}

proof fn lemma_row_end(y: int, roi_w: int)
    by (nonlinear_arith)
    ensures
        y * roi_w + roi_w == (y + 1) * roi_w,
{
}

/// The score-map indices of the cells that a polygon mask covers: the mask
/// is `roi_w` by `roi_h`, row by row, placed at `(x_min, y_min)` in a
/// `w`-wide map of `len` scores; cells that fall past the map's end count
/// for nothing. The region's masked cells are those the scores are averaged
/// over.
pub fn masked_indices(
    mask: &Vec<bool>,
    roi_w: usize,
    roi_h: usize,
    x_min: usize,
    y_min: usize,
    w: usize,
    len: usize,
) -> (r: Vec<usize>)
    requires
        mask@.len() == roi_w * roi_h,
        forall|j: int|
            0 <= j < mask@.len() && #[trigger] mask@[j] ==> y_min + j / (roi_w as int) <= usize::MAX
                && score_index(j, roi_w as int, x_min as int, y_min as int, w as int) <= usize::MAX,
    ensures
        r@ == masked_indices_upto(
            mask@,
            roi_w as int,
            x_min as int,
            y_min as int,
            w as int,
            len as int,
            mask@.len(),
        ),
{
    let n_cells: usize = mask.len();
    let mut r: Vec<usize> = Vec::new();
    let mut y: usize = 0;
    while y < roi_h
        invariant
            0 <= y <= roi_h,
            n_cells == mask@.len(),
            mask@.len() == roi_w * roi_h,
            forall|j: int|
                0 <= j < mask@.len() && #[trigger] mask@[j] ==> y_min + j / (roi_w as int) <= usize::MAX
                    && score_index(j, roi_w as int, x_min as int, y_min as int, w as int)
                    <= usize::MAX,
            r@ == masked_indices_upto(
                mask@,
                roi_w as int,
                x_min as int,
                y_min as int,
                w as int,
                len as int,
                (y * roi_w) as nat,
            ),
        decreases roi_h - y,
    {
        let mut x: usize = 0;
        while x < roi_w
            invariant
                0 <= y < roi_h,
                0 <= x <= roi_w,
                n_cells == mask@.len(),
                mask@.len() == roi_w * roi_h,
                forall|j: int|
                    0 <= j < mask@.len() && #[trigger] mask@[j] ==> y_min + j / (roi_w as int) <= usize::MAX
                        && score_index(j, roi_w as int, x_min as int, y_min as int, w as int)
                        <= usize::MAX,
                r@ == masked_indices_upto(
                    mask@,
                    roi_w as int,
                    x_min as int,
                    y_min as int,
                    w as int,
                    len as int,
                    (y * roi_w + x) as nat,
                ),
            decreases roi_w - x,
        {
            let ghost j = y * roi_w + x;
            proof {
                lemma_cell_position(roi_w as int, y as int, x as int);
                lemma_row_end(y as int, roi_w as int);
                assert(0 <= y * roi_w <= j) by (nonlinear_arith)
                    requires
                        j == y * roi_w + x,
                        x >= 0,
                        y >= 0,
                        roi_w >= 0,
                ;
                assert(j < roi_w * roi_h) by (nonlinear_arith)
                    requires
                        j == y * roi_w + x,
                        x < roi_w,
                        y < roi_h,
                ;
            }
            let cell = y * roi_w + x;
            if mask[cell] {
                assert(mask@[j]);
                assert((y_min + y) * w <= (y_min + y) * w + (x_min + x)) by (nonlinear_arith)
                    requires
                        y_min + y >= 0,
                        w >= 0,
                ;
                let idx = (y_min + y) * w + (x_min + x);
                if idx < len {
                    r.push(idx);
                }
            }
            x = x + 1;
        }
        proof {
            lemma_row_end(y as int, roi_w as int);
        }
        y = y + 1;
    }
    proof {
        assert(roi_h * roi_w == roi_w * roi_h) by (nonlinear_arith);
    }
    r
}

} // verus!
