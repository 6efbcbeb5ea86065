//! Box blur of an RGBA image held as bytes, four to a pixel, row after row.
use rayon::iter::{IndexedParallelIterator, ParallelIterator};
use rayon::slice::{ParallelSlice, ParallelSliceMut};
use vstd::arithmetic::div_mod::*;
use vstd::arithmetic::mul::*;
use vstd::prelude::*;

verus! {

/// The largest radius for which a window of bytes can be summed in 32 bits.
pub const MAX_RADIUS: u32 = 8_421_503;

/// The value of `line` at `i`, where positions outside the line repeat its ends.
pub open spec fn clamped(line: Seq<u8>, i: int) -> int {
    if i < 0 {
        line[0] as int
    } else if i >= line.len() {
        line[line.len() - 1] as int
    } else {
        line[i] as int
    }
}

/// The sum of `line` over the positions from `lo` up to but not including `hi`.
pub open spec fn clamped_sum(line: Seq<u8>, lo: int, hi: int) -> int
    decreases hi - lo,
{
    if lo >= hi {
        0
    } else {
        clamped_sum(line, lo, hi - 1) + clamped(line, hi - 1)
    }
}

/// The mean, rounded down, of `line` over the `2 * r + 1` positions centred on `i`.
pub open spec fn box_mean(line: Seq<u8>, i: int, r: nat) -> u8 {
    (clamped_sum(line, i - r, i + r + 1) / (2 * r + 1) as int) as u8
}

/// The `n` bytes of `img` that start at `off` and lie `stride` apart.
pub open spec fn line(img: Seq<u8>, off: int, stride: int, n: nat) -> Seq<u8> {
    Seq::new(n, |i: int| img[off + i * stride])
}

proof fn lemma_sum_bounds(s: Seq<u8>, lo: int, hi: int)
    requires
        lo <= hi,
    ensures
        0 <= clamped_sum(s, lo, hi) <= 255 * (hi - lo),
    decreases hi - lo,
{
    if lo < hi {
        lemma_sum_bounds(s, lo, hi - 1);
    }
}

proof fn lemma_sum_front(s: Seq<u8>, lo: int, hi: int)
    requires
        lo < hi,
    ensures
        clamped_sum(s, lo, hi) == clamped(s, lo) + clamped_sum(s, lo + 1, hi),
    decreases hi - lo,
{
    if lo + 1 < hi {
        lemma_sum_front(s, lo, hi - 1);
    } else {
        assert(clamped_sum(s, lo, hi - 1) == 0);
        assert(clamped_sum(s, lo + 1, hi) == 0);
    }
}

/// A run of positions left of the line counts its first byte that many times.
proof fn lemma_sum_left(s: Seq<u8>, lo: int, hi: int)
    requires
        s.len() >= 1,
        lo <= hi <= 1,
    ensures
        clamped_sum(s, lo, hi) == (hi - lo) * (s[0] as int),
    decreases hi - lo,
{
    if lo < hi {
        lemma_sum_left(s, lo, hi - 1);
        assert((hi - lo) * (s[0] as int) == (hi - 1 - lo) * (s[0] as int) + s[0] as int)
            by (nonlinear_arith);
    } else {
        assert((hi - lo) * (s[0] as int) == 0) by (nonlinear_arith)
            requires
                hi == lo,
        ;
    }
}

proof fn lemma_on_line(off: int, i: int, n: int, stride: int)
    requires
        0 <= off,
        0 <= i < n,
        1 <= stride,
    ensures
        0 <= i * stride <= (n - 1) * stride,
{
    assert(0 <= i * stride <= (n - 1) * stride) by (nonlinear_arith)
        requires
            0 <= i < n,
            1 <= stride,
    ;
}

/// Blurs one line of `src` into the same line of `dst`.
fn blur_line(dst: &mut [u8], src: &[u8], off: usize, stride: usize, n: usize, r: u32)
    requires
        n >= 1,
        stride >= 1,
        r <= MAX_RADIUS,
        off + (n - 1) * stride < src@.len(),
        old(dst)@.len() == src@.len(),
    ensures
        final(dst)@.len() == old(dst)@.len(),
        forall|i: int|
            0 <= i < n ==> #[trigger] final(dst)@[off + i * stride] == box_mean(
                line(src@, off as int, stride as int, n as nat),
                i,
                r as nat,
            ),
        forall|j: int|
            0 <= j < final(dst)@.len() && (forall|i: int|
                0 <= i < n ==> j != #[trigger] (off + i * stride)) ==> #[trigger] final(dst)@[j]
                == old(dst)@[j],
{
    let ghost s = line(src@, off as int, stride as int, n as nat);
    let window: u32 = 2 * r + 1;
    let last: usize = n - 1;
    proof {
        lemma_on_line(off as int, 0, n as int, stride as int);
    }
    let first: u8 = src[off];
    proof {
        lemma_sum_left(s, -(r as int), 1);
        assert(0 <= (r + 1) * first <= 255 * (r + 1)) by (nonlinear_arith)
            requires
                0 <= first <= 255,
                0 <= r,
        ;
        assert(s[0] == src@[off + 0 * stride]);
    }
    let mut sum: u32 = (r + 1) * (first as u32);
    let mut k: u32 = 1;
    while k <= r
        invariant
            n >= 1,
            stride >= 1,
            last == n - 1,
            1 <= k <= r + 1,
            r <= MAX_RADIUS,
            off + (n - 1) * stride < src.len(),
            s == line(src@, off as int, stride as int, n as nat),
            sum == clamped_sum(s, -(r as int), k as int),
        decreases r + 1 - k,
    {
        let i: usize = if (k as usize) < last {
            k as usize
        } else {
            last
        };
        proof {
            lemma_on_line(off as int, i as int, n as int, stride as int);
            lemma_sum_bounds(s, -(r as int), k as int);
            assert(s[i as int] == src@[off + i * stride]);
        }
        sum = sum + (src[off + i * stride] as u32);
        k = k + 1;
    }
    let ghost before = dst@;
    let mut x: usize = 0;
    while x < n
        invariant
            n >= 1,
            stride >= 1,
            last == n - 1,
            x <= n,
            r <= MAX_RADIUS,
            window == 2 * r + 1,
            off + (n - 1) * stride < src.len(),
            s == line(src@, off as int, stride as int, n as nat),
            sum == clamped_sum(s, x - r, x + r + 1),
            dst@.len() == src@.len(),
            dst@.len() == before.len(),
            forall|i: int|
                0 <= i < x ==> #[trigger] dst@[off + i * stride] == box_mean(s, i, r as nat),
            forall|j: int|
                0 <= j < dst@.len() && (forall|i: int|
                    0 <= i < n ==> j != #[trigger] (off + i * stride)) ==> #[trigger] dst@[j]
                    == before[j],
        decreases n - x,
    {
        proof {
            lemma_on_line(off as int, x as int, n as int, stride as int);
            lemma_sum_bounds(s, x - r, x + r + 1);
            assert(sum / window <= 255) by (nonlinear_arith)
                requires
                    sum <= 255 * window,
                    window >= 1,
            ;
        }
        let mean: u8 = (sum / window) as u8;
        let ghost prev = dst@;
        dst[off + x * stride] = mean;
        proof {
            assert forall|i: int| 0 <= i < x + 1 implies #[trigger] dst@[off + i * stride]
                == box_mean(s, i, r as nat) by {
                lemma_on_line(off as int, i as int, n as int, stride as int);
                if i < x {
                    assert(i * stride < x * stride) by (nonlinear_arith)
                        requires
                            i < x,
                            stride >= 1,
                    ;
                    assert(prev[off + i * stride] == box_mean(s, i, r as nat));
                }
            }
        }
        let left: usize = if (r as usize) <= x {
            x - (r as usize)
        } else {
            0
        };
        let right: usize = if last - x > (r as usize) {
            x + (r as usize) + 1
        } else {
            last
        };
        proof {
            lemma_on_line(off as int, left as int, n as int, stride as int);
            lemma_on_line(off as int, right as int, n as int, stride as int);
            assert(s[left as int] == src@[off + left * stride]);
            assert(s[right as int] == src@[off + right * stride]);
            assert(clamped(s, x - r) == s[left as int] as int);
            assert(clamped(s, x + r + 1) == s[right as int] as int);
            lemma_sum_front(s, x - r, x + r + 2);
            lemma_sum_bounds(s, x - r + 1, x + r + 2);
            assert(clamped_sum(s, x - r, x + r + 2) == clamped_sum(s, x - r, x + r + 1) + clamped(
                s,
                x + r + 1,
            ));
        }
        sum = sum + (src[off + right * stride] as u32) - (src[off + left * stride] as u32);
        x = x + 1;
    }
}


// ---------------------------------------------------------------------------
// Rows
// ---------------------------------------------------------------------------

/// Where channel `c` of the pixel in column `x` and row `y` of an image `w` wide is held.
pub open spec fn channel_index(w: int, x: int, y: int, c: int) -> int {
    (y * w + x) * 4 + c
}

/// `dst` is the row of pixels `src`, `w` wide, blurred along itself.
pub open spec fn row_blurred(dst: Seq<u8>, src: Seq<u8>, w: nat, r: nat) -> bool {
    forall|x: int, c: int|
        0 <= x < w && 0 <= c < 4 ==> #[trigger] dst[c + x * 4] == box_mean(line(src, c, 4, w), x, r)
}

/// Blurs one row of pixels.
fn blur_row(dst: &mut [u8], src: &[u8], w: usize, r: u32)
    requires
        w >= 1,
        r <= MAX_RADIUS,
        src@.len() == 4 * w,
        old(dst)@.len() == src@.len(),
    ensures
        final(dst)@.len() == old(dst)@.len(),
        row_blurred(final(dst)@, src@, w as nat, r as nat),
{
    for k in 0..4usize
        invariant
            w >= 1,
            r <= MAX_RADIUS,
            src@.len() == 4 * w,
            dst@.len() == src@.len(),
            forall|x: int, c: int|
                0 <= x < w && 0 <= c < k ==> #[trigger] dst@[c + x * 4] == box_mean(
                    line(src@, c, 4, w as nat),
                    x,
                    r as nat,
                ),
    {
        let ghost prev = dst@;
        blur_line(dst, src, k, 4, w, r);
        proof {
            assert forall|x: int, c: int| 0 <= x < w && 0 <= c < k + 1 implies #[trigger] dst@[c + x
                * 4] == box_mean(line(src@, c, 4, w as nat), x, r as nat) by {
                if c < k {
                    assert forall|i: int| 0 <= i < w implies c + x * 4 != #[trigger] (k + i * 4) by {}
                    assert(dst@[c + x * 4] == prev[c + x * 4]);
                }
            }
        }
    }
}

/// Hands every full row of `src` and the row of `dst` beside it to [`blur_row`], on rayon's
/// thread pool.
///
/// Trusted: `par_chunks_exact_mut` and `par_chunks_exact` cut two slices of equal length into the
/// same runs of `row_len` bytes, leaving out a shorter rest; `zip` pairs them in order; and
/// `for_each` calls its closure once on every pair. So every row of `dst` is afterwards what
/// `blur_row` makes of the row of `src`, and the length of `dst` is what it was.
#[verifier::external_body]
fn blur_each_row(dst: &mut [u8], src: &[u8], row_len: usize, w: usize, r: u32)
    requires
        w >= 1,
        r <= MAX_RADIUS,
        row_len == 4 * w,
        old(dst)@.len() == src@.len(),
    ensures
        final(dst)@.len() == old(dst)@.len(),
        forall|y: int|
            0 <= y && (y + 1) * row_len <= src@.len() ==> row_blurred(
                final(dst)@.subrange(y * row_len, (y + 1) * row_len),
                #[trigger] src@.subrange(y * row_len, (y + 1) * row_len),
                w as nat,
                r as nat,
            ),
{
    dst.par_chunks_exact_mut(row_len)
        .zip(src.par_chunks_exact(row_len))
        .for_each(|(dst_row, src_row)| blur_row(dst_row, src_row, w, r));
}

// ---------------------------------------------------------------------------
// Images
// ---------------------------------------------------------------------------

/// Channel `c` of the pixels of row `y`.
pub open spec fn row(img: Seq<u8>, w: nat, y: int, c: int) -> Seq<u8> {
    Seq::new(w, |x: int| img[channel_index(w as int, x, y, c)])
}

/// Channel `c` of column `x` after every row has been blurred along itself.
pub open spec fn row_blurred_column(img: Seq<u8>, w: nat, h: nat, r: nat, x: int, c: int) -> Seq<u8> {
    Seq::new(h, |y: int| box_mean(row(img, w, y, c), x, r))
}

/// Channel `c` of the pixel in column `x` and row `y` of the blurred image: the rows are blurred
/// along themselves, then the columns of the result.
pub open spec fn blur_at(img: Seq<u8>, w: nat, h: nat, r: nat, x: int, y: int, c: int) -> u8 {
    box_mean(row_blurred_column(img, w, h, r, x, c), y, r)
}

/// The whole blurred image. Images less than two pixels wide or high, and a radius of zero, leave
/// it as it is, and so are bytes past the last pixel.
pub open spec fn blurred(img: Seq<u8>, w: nat, h: nat, r: nat) -> Seq<u8> {
    if w < 2 || h < 2 || r == 0 {
        img
    } else {
        Seq::new(
            img.len(),
            |i: int|
                if i < w * h * 4 {
                    blur_at(img, w, h, r, (i / 4) % (w as int), (i / 4) / (w as int), i % 4)
                } else {
                    img[i]
                },
        )
    }
}

pub(crate) proof fn lemma_channel_index(w: int, h: int, x: int, y: int, c: int)
    requires
        0 <= x < w,
        0 <= y < h,
        0 <= c < 4,
    ensures
        0 <= channel_index(w, x, y, c) < w * h * 4,
        channel_index(w, x, y, c) == y * (4 * w) + (c + x * 4),
        channel_index(w, x, y, c) == (x * 4 + c) + y * (4 * w),
        (channel_index(w, x, y, c) / 4) % w == x,
        (channel_index(w, x, y, c) / 4) / w == y,
        channel_index(w, x, y, c) % 4 == c,
{
    assert(0 <= (y * w + x) * 4 + c < w * h * 4) by (nonlinear_arith)
        requires
            0 <= x < w,
            0 <= y < h,
            0 <= c < 4,
    ;
    assert((y * w + x) * 4 + c == y * (4 * w) + (c + x * 4)) by (nonlinear_arith);
    assert((y * w + x) % w == x && (y * w + x) / w == y) by {
        lemma_fundamental_div_mod_converse(y * w + x, w, y, x);
    }
    assert(channel_index(w, x, y, c) / 4 == y * w + x);
}

proof fn lemma_index_channel(w: int, h: int, i: int)
    requires
        w >= 1,
        h >= 1,
        0 <= i < w * h * 4,
    ensures
        0 <= (i / 4) % w < w,
        0 <= (i / 4) / w < h,
        i == channel_index(w, (i / 4) % w, (i / 4) / w, i % 4),
{
    let p = i / 4;
    assert(0 <= p < w * h) by (nonlinear_arith)
        requires
            0 <= i < w * h * 4,
            p == i / 4,
    ;
    lemma_fundamental_div_mod(p, w);
    lemma_mod_bound(p, w);
    lemma_mul_is_commutative(w, p / w);
    assert(0 <= p / w < h) by (nonlinear_arith)
        requires
            0 <= p < w * h,
            w >= 1,
    ;
}

/// The part of the row pass that concerns one channel of one pixel.
proof fn lemma_row_pass(temp: Seq<u8>, img: Seq<u8>, w: int, h: int, r: nat, x: int, y: int, c: int)
    requires
        0 <= x < w,
        0 <= y < h,
        0 <= c < 4,
        w * h * 4 <= img.len(),
        temp.len() == img.len(),
        row_blurred(
            temp.subrange(y * (4 * w), (y + 1) * (4 * w)),
            img.subrange(y * (4 * w), (y + 1) * (4 * w)),
            w as nat,
            r,
        ),
    ensures
        temp[channel_index(w, x, y, c)] == box_mean(row(img, w as nat, y, c), x, r),
{
    let lo = y * (4 * w);
    let hi = (y + 1) * (4 * w);
    assert(0 <= lo <= hi <= w * h * 4 && hi - lo == 4 * w) by (nonlinear_arith)
        requires
            0 <= y < h,
            0 < w,
            lo == y * (4 * w),
            hi == (y + 1) * (4 * w),
    ;
    lemma_channel_index(w, h, x, y, c);
    let t = temp.subrange(lo, hi);
    let s = img.subrange(lo, hi);
    assert(t[c + x * 4] == temp[lo + (c + x * 4)]);
    assert(t[c + x * 4] == box_mean(line(s, c, 4, w as nat), x, r));
    assert(line(s, c, 4, w as nat) == row(img, w as nat, y, c)) by {
        assert forall|i: int| 0 <= i < w implies #[trigger] line(s, c, 4, w as nat)[i] == row(
            img,
            w as nat,
            y,
            c,
        )[i] by {
            lemma_channel_index(w, h, i, y, c);
            assert(s[c + i * 4] == img[lo + (c + i * 4)]);
        }
    }
}

/// Blurs an image in place: every channel becomes the mean over a square of side `2 * radius + 1`
/// around it, taken along rows first and columns second, where the border repeats.
pub fn fast_box_blur(buf: &mut [u8], width: u32, height: u32, radius: u32)
    requires
        width >= 2 && height >= 2 && radius > 0 ==> width * height * 4 <= old(buf)@.len(),
        width >= 2 && height >= 2 ==> radius <= MAX_RADIUS,
    ensures
        final(buf)@ == blurred(old(buf)@, width as nat, height as nat, radius as nat),
{
    if width < 2 || height < 2 || radius == 0 {
        return ;
    }
    let w = width as usize;
    let h = height as usize;
    let ghost img = buf@;
    let ghost r = radius as nat;
    let len = buf.len();
    proof {
        assert(4 * w <= w * h * 4) by (nonlinear_arith)
            requires
                h >= 1,
        ;
    }
    let row_len: usize = 4 * w;
    let mut temp: Vec<u8> = vec![0u8; len];
    blur_each_row(temp.as_mut_slice(), buf, row_len, w, radius);
    proof {
        assert forall|x: int, y: int, c: int|
            0 <= x < w && 0 <= y < h && 0 <= c < 4 implies #[trigger] temp@[channel_index(
            w as int,
            x,
            y,
            c,
        )] == box_mean(row(img, w as nat, y, c), x, r) by {
            let lo = y * row_len;
            let hi = (y + 1) * row_len;
            assert(hi <= w * h * 4) by (nonlinear_arith)
                requires
                    0 <= y < h,
                    row_len == 4 * w,
                    hi == (y + 1) * row_len,
            ;
            let chunk = img.subrange(lo, hi);
            lemma_row_pass(temp@, img, w as int, h as int, r, x, y, c);
        }
    }
    for x in 0..w
        invariant
            w == width,
            h == height,
            r == radius,
            w >= 2,
            h >= 2,
            0 < radius <= MAX_RADIUS,
            row_len == 4 * w,
            len == img.len(),
            buf@.len() == len,
            temp@.len() == len,
            w * h * 4 <= len,
            forall|x: int, y: int, c: int|
                0 <= x < w && 0 <= y < h && 0 <= c < 4 ==> #[trigger] temp@[channel_index(
                    w as int,
                    x,
                    y,
                    c,
                )] == box_mean(row(img, w as nat, y, c), x, r),
            forall|i: int, y: int, c: int|
                0 <= i < x && 0 <= y < h && 0 <= c < 4 ==> #[trigger] buf@[channel_index(
                    w as int,
                    i,
                    y,
                    c,
                )] == blur_at(img, w as nat, h as nat, r, i, y, c),
            forall|j: int| w * h * 4 <= j < len ==> buf@[j] == img[j],
    {
        for k in 0..4usize
            invariant
                x < w,
                w == width,
                h == height,
                r == radius,
                w >= 2,
                h >= 2,
                0 < radius <= MAX_RADIUS,
                row_len == 4 * w,
                len == img.len(),
                buf@.len() == len,
                temp@.len() == len,
                w * h * 4 <= len,
                forall|x: int, y: int, c: int|
                    0 <= x < w && 0 <= y < h && 0 <= c < 4 ==> #[trigger] temp@[channel_index(
                        w as int,
                        x,
                        y,
                        c,
                    )] == box_mean(row(img, w as nat, y, c), x, r),
                forall|i: int, y: int, c: int|
                    0 <= i <= x && 0 <= y < h && 0 <= c < 4 && (i < x || c < k)
                        ==> #[trigger] buf@[channel_index(w as int, i, y, c)] == blur_at(
                        img,
                        w as nat,
                        h as nat,
                        r,
                        i,
                        y,
                        c,
                    ),
                forall|j: int| w * h * 4 <= j < len ==> buf@[j] == img[j],
        {
            let ghost prev = buf@;
            proof {
                lemma_channel_index(w as int, h as int, x as int, h - 1, k as int);
                assert(x * 4 + k + (h - 1) * row_len < len);
                assert((h - 1) * row_len >= 0) by (nonlinear_arith)
                    requires
                        h >= 1,
                ;
            }
            let off: usize = x * 4 + k;
            blur_line(buf, temp.as_slice(), off, row_len, h, radius);
            proof {
                let column = line(temp@, off as int, row_len as int, h as nat);
                assert(column == row_blurred_column(img, w as nat, h as nat, r, x as int, k as int))
                    by {
                    assert forall|y: int| 0 <= y < h implies #[trigger] column[y] == row_blurred_column(
                        img,
                        w as nat,
                        h as nat,
                        r,
                        x as int,
                        k as int,
                    )[y] by {
                        lemma_channel_index(w as int, h as int, x as int, y, k as int);
                        assert(temp@[channel_index(w as int, x as int, y, k as int)] == box_mean(
                            row(img, w as nat, y, k as int),
                            x as int,
                            r,
                        ));
                    }
                }
                assert forall|i: int, y: int, c: int|
                    0 <= i <= x && 0 <= y < h && 0 <= c < 4 && (i < x || c < k + 1) implies (
                #[trigger] buf@[channel_index(w as int, i, y, c)]) == blur_at(
                    img,
                    w as nat,
                    h as nat,
                    r,
                    i,
                    y,
                    c,
                ) by {
                    let j = channel_index(w as int, i, y, c);
                    lemma_channel_index(w as int, h as int, i, y, c);
                    if i == x && c == k {
                        assert(j == off + y * row_len);
                    } else {
                        assert forall|m: int| 0 <= m < h implies j != #[trigger] (off + m
                            * row_len) by {
                            lemma_channel_index(w as int, h as int, x as int, m, k as int);
                        }
                        assert(buf@[j] == prev[j]);
                    }
                }
                assert forall|j: int| w * h * 4 <= j < len implies buf@[j] == img[j] by {
                    assert forall|m: int| 0 <= m < h implies j != #[trigger] (off + m * row_len) by {
                        lemma_channel_index(w as int, h as int, x as int, m, k as int);
                    }
                    assert(buf@[j] == prev[j]);
                }
            }
        }
    }
    proof {
        let out = blurred(img, w as nat, h as nat, r);
        assert forall|i: int| 0 <= i < len implies buf@[i] == out[i] by {
            if i < w * h * 4 {
                lemma_index_channel(w as int, h as int, i);
                let x = (i / 4) % (w as int);
                let y = (i / 4) / (w as int);
                assert(buf@[channel_index(w as int, x, y, i % 4)] == blur_at(
                    img,
                    w as nat,
                    h as nat,
                    r,
                    x,
                    y,
                    i % 4,
                ));
            }
        }
        assert(buf@ == out);
    }
}


// ---------------------------------------------------------------------------
// Laws
// ---------------------------------------------------------------------------

proof fn lemma_constant_sum(s: Seq<u8>, v: u8, lo: int, hi: int)
    requires
        s.len() >= 1,
        forall|i: int| 0 <= i < s.len() ==> s[i] == v,
        lo <= hi,
    ensures
        clamped_sum(s, lo, hi) == (hi - lo) * v,
    decreases hi - lo,
{
    if lo < hi {
        lemma_constant_sum(s, v, lo, hi - 1);
        assert((hi - lo) * v == (hi - 1 - lo) * v + v) by (nonlinear_arith);
    } else {
        assert((hi - lo) * v == 0) by (nonlinear_arith)
            requires
                hi == lo,
        ;
    }
}

/// The mean over a window of equal bytes is that byte.
pub proof fn law_mean_of_equal_bytes(s: Seq<u8>, v: u8, i: int, r: nat)
    requires
        s.len() >= 1,
        forall|i: int| 0 <= i < s.len() ==> s[i] == v,
    ensures
        box_mean(s, i, r) == v,
{
    lemma_constant_sum(s, v, i - r, i + r + 1);
    let n = 2 * r + 1;
    assert((n * v) / (n as int) == v) by (nonlinear_arith)
        requires
            n >= 1,
    ;
}

/// Blurring an image whose pixels are all the same leaves it as it is.
pub proof fn law_blur_keeps_uniform(img: Seq<u8>, w: nat, h: nat, r: nat, pixel: Seq<u8>)
    requires
        img.len() == w * h * 4,
        pixel.len() == 4,
        forall|i: int| 0 <= i < img.len() ==> #[trigger] img[i] == pixel[i % 4],
    ensures
        blurred(img, w, h, r) == img,
{
    if !(w < 2 || h < 2 || r == 0) {
        let out = blurred(img, w, h, r);
        assert forall|i: int| 0 <= i < img.len() implies out[i] == img[i] by {
            lemma_index_channel(w as int, h as int, i);
            let x = (i / 4) % (w as int);
            let y = (i / 4) / (w as int);
            let c = i % 4;
            let column = row_blurred_column(img, w, h, r, x, c);
            assert forall|j: int| 0 <= j < column.len() implies column[j] == pixel[c] by {
                let s = row(img, w, j, c);
                assert forall|k: int| 0 <= k < s.len() implies s[k] == pixel[c] by {
                    lemma_channel_index(w as int, h as int, k, j, c);
                }
                law_mean_of_equal_bytes(s, pixel[c], x, r);
            }
            law_mean_of_equal_bytes(column, pixel[c], y, r);
        }
        assert(out == img);
    }
}

/// `b` is `a` with the pixels of every row in the opposite order.
pub open spec fn mirrored(a: Seq<u8>, b: Seq<u8>, w: nat, h: nat) -> bool {
    &&& a.len() == w * h * 4
    &&& b.len() == w * h * 4
    &&& forall|x: int, y: int, c: int|
        0 <= x < w && 0 <= y < h && 0 <= c < 4 ==> #[trigger] b[channel_index(w as int, x, y, c)]
            == a[channel_index(w as int, w - 1 - x, y, c)]
}

/// `b` is `a` with its rows in the opposite order.
pub open spec fn flipped(a: Seq<u8>, b: Seq<u8>, w: nat, h: nat) -> bool {
    &&& a.len() == w * h * 4
    &&& b.len() == w * h * 4
    &&& forall|x: int, y: int, c: int|
        0 <= x < w && 0 <= y < h && 0 <= c < 4 ==> #[trigger] b[channel_index(w as int, x, y, c)]
            == a[channel_index(w as int, x, h - 1 - y, c)]
}

proof fn lemma_reversed_sum(s: Seq<u8>, t: Seq<u8>, lo: int, hi: int)
    requires
        s.len() >= 1,
        t == s.reverse(),
        lo <= hi,
    ensures
        clamped_sum(t, lo, hi) == clamped_sum(s, s.len() - hi, s.len() - lo),
    decreases hi - lo,
{
    let n = s.len() as int;
    if lo < hi {
        lemma_reversed_sum(s, t, lo, hi - 1);
        lemma_sum_front(s, n - hi, n - lo);
        assert(clamped(t, hi - 1) == clamped(s, n - hi));
    }
}

proof fn lemma_reversed_mean(s: Seq<u8>, t: Seq<u8>, i: int, r: nat)
    requires
        s.len() >= 1,
        t == s.reverse(),
    ensures
        box_mean(t, i, r) == box_mean(s, s.len() - 1 - i, r),
{
    lemma_reversed_sum(s, t, i - r, i + r + 1);
    assert(s.len() - (i + r + 1) == (s.len() - 1 - i) - r);
    assert(s.len() - (i - r) == (s.len() - 1 - i) + r + 1);
}

proof fn lemma_blurred_byte(img: Seq<u8>, w: nat, h: nat, r: nat, x: int, y: int, c: int)
    requires
        w >= 2,
        h >= 2,
        r > 0,
        img.len() == w * h * 4,
        0 <= x < w,
        0 <= y < h,
        0 <= c < 4,
    ensures
        blurred(img, w, h, r)[channel_index(w as int, x, y, c)] == blur_at(img, w, h, r, x, y, c),
{
    lemma_channel_index(w as int, h as int, x, y, c);
}

/// The blur of a mirrored image is the mirrored blur.
pub proof fn law_blur_mirrors(a: Seq<u8>, b: Seq<u8>, w: nat, h: nat, r: nat)
    requires
        mirrored(a, b, w, h),
    ensures
        mirrored(blurred(a, w, h, r), blurred(b, w, h, r), w, h),
{
    if w >= 2 && h >= 2 && r > 0 {
        assert forall|x: int, y: int, c: int|
            0 <= x < w && 0 <= y < h && 0 <= c < 4 implies #[trigger] blurred(b, w, h, r)[
        channel_index(w as int, x, y, c)] == blurred(a, w, h, r)[channel_index(
            w as int,
            w - 1 - x,
            y,
            c,
        )] by {
            lemma_blurred_byte(b, w, h, r, x, y, c);
            lemma_blurred_byte(a, w, h, r, w - 1 - x, y, c);
            let ours = row_blurred_column(b, w, h, r, x, c);
            let theirs = row_blurred_column(a, w, h, r, w - 1 - x, c);
            assert forall|j: int| 0 <= j < h implies ours[j] == theirs[j] by {
                let s = row(a, w, j, c);
                let t = row(b, w, j, c);
                assert forall|i: int| 0 <= i < w implies t[i] == s[w - 1 - i] by {
                    assert(b[channel_index(w as int, i, j, c)] == a[channel_index(
                        w as int,
                        w - 1 - i,
                        j,
                        c,
                    )]);
                }
                assert(t == s.reverse());
                lemma_reversed_mean(s, t, x, r);
            }
            assert(ours == theirs);
        }
    }
}

/// The blur of an image that stands on its head is the blur on its head.
pub proof fn law_blur_flips(a: Seq<u8>, b: Seq<u8>, w: nat, h: nat, r: nat)
    requires
        flipped(a, b, w, h),
    ensures
        flipped(blurred(a, w, h, r), blurred(b, w, h, r), w, h),
{
    if w >= 2 && h >= 2 && r > 0 {
        assert forall|x: int, y: int, c: int|
            0 <= x < w && 0 <= y < h && 0 <= c < 4 implies #[trigger] blurred(b, w, h, r)[
        channel_index(w as int, x, y, c)] == blurred(a, w, h, r)[channel_index(
            w as int,
            x,
            h - 1 - y,
            c,
        )] by {
            lemma_blurred_byte(b, w, h, r, x, y, c);
            lemma_blurred_byte(a, w, h, r, x, h - 1 - y, c);
            let ours = row_blurred_column(b, w, h, r, x, c);
            let theirs = row_blurred_column(a, w, h, r, x, c);
            assert forall|j: int| 0 <= j < h implies ours[j] == theirs[h - 1 - j] by {
                let s = row(a, w, h - 1 - j, c);
                let t = row(b, w, j, c);
                assert forall|i: int| 0 <= i < w implies t[i] == s[i] by {
                    assert(b[channel_index(w as int, i, j, c)] == a[channel_index(
                        w as int,
                        i,
                        h - 1 - j,
                        c,
                    )]);
                }
                assert(t == s);
            }
            assert(ours == theirs.reverse());
            lemma_reversed_mean(theirs, ours, y, r);
        }
    }
}

/// `m` is the mean, rounded down, of `bytes`: so many times `m` is at most their sum, and so many
/// times one more is above it.
pub open spec fn is_mean(m: u8, bytes: Seq<u8>) -> bool {
    let sum = bytes.fold_left(0, |total: int, byte: u8| total + byte as int);
    bytes.len() * (m as int) <= sum && sum < bytes.len() * (m + 1)
}

/// The place on a line of `n` that is nearest to `i`.
pub open spec fn nearest(i: int, n: int) -> int {
    if i < 0 {
        0
    } else if i < n {
        i
    } else {
        n - 1
    }
}

/// Every byte of `b` is the mean of the bytes of `a` in the same row and channel, up to `r` pixels to
/// the left and to the right; beyond the border stands the pixel at the border.
pub open spec fn means_along_rows(a: Seq<u8>, b: Seq<u8>, w: int, h: int, r: nat) -> bool {
    forall|x: int, y: int, c: int|
        0 <= x < w && 0 <= y < h && 0 <= c < 4 ==> is_mean(
            #[trigger] b[channel_index(w, x, y, c)],
            Seq::new(
                (2 * r + 1) as nat,
                |k: int| a[channel_index(w, nearest(x - r + k, w), y, c)],
            ),
        )
}

/// Every byte of `b` is the mean of the bytes of `a` in the same column and channel, up to `r` pixels
/// above and below; beyond the border stands the pixel at the border.
pub open spec fn means_along_columns(a: Seq<u8>, b: Seq<u8>, w: int, h: int, r: nat) -> bool {
    forall|x: int, y: int, c: int|
        0 <= x < w && 0 <= y < h && 0 <= c < 4 ==> is_mean(
            #[trigger] b[channel_index(w, x, y, c)],
            Seq::new(
                (2 * r + 1) as nat,
                |k: int| a[channel_index(w, x, nearest(y - r + k, h), c)],
            ),
        )
}

proof fn lemma_sum_is_fold(s: Seq<u8>, lo: int, n: nat, window: Seq<u8>)
    requires
        s.len() >= 1,
        window.len() == n,
        forall|k: int| 0 <= k < n ==> window[k] == s[nearest(lo + k, s.len() as int)],
    ensures
        clamped_sum(s, lo, lo + n) == window.fold_left(
            0,
            |total: int, byte: u8| total + byte as int,
        ),
    decreases n,
{
    if n > 0 {
        let m = (n - 1) as nat;
        lemma_sum_is_fold(s, lo, m, window.drop_last());
        assert(window.last() == s[nearest(lo + m, s.len() as int)]);
    }
}

proof fn lemma_box_mean_is_mean(s: Seq<u8>, i: int, r: nat, window: Seq<u8>)
    requires
        s.len() >= 1,
        window.len() == 2 * r + 1,
        forall|k: int|
            0 <= k < 2 * r + 1 ==> window[k] == s[nearest(i - r + k, s.len() as int)],
    ensures
        is_mean(box_mean(s, i, r), window),
{
    let n = 2 * r + 1;
    lemma_sum_is_fold(s, i - r, n, window);
    lemma_sum_bounds(s, i - r, i + r + 1);
    assert(i - r + n == i + r + 1);
    let sum = clamped_sum(s, i - r, i + r + 1);
    let m = sum / (n as int);
    assert(0 <= m <= 255 && n * m <= sum < n * (m + 1)) by (nonlinear_arith)
        requires
            0 <= sum <= 255 * n,
            n >= 1,
            m == sum / (n as int),
    ;
    assert(box_mean(s, i, r) as int == m);
}

/// What a blur comes to, for every size and radius: there is a picture in between, made of the means
/// along the rows, and the result is made of the means along its columns. What follows the picture
/// stays.
pub proof fn law_blur_is_a_mean_of_means(img: Seq<u8>, w: nat, h: nat, r: nat)
    requires
        w >= 2,
        h >= 2,
        r > 0,
        w * h * 4 <= img.len(),
    ensures
        blurred(img, w, h, r).len() == img.len(),
        forall|i: int| w * h * 4 <= i < img.len() ==> #[trigger] blurred(img, w, h, r)[i] == img[i],
        exists|between: Seq<u8>|
            #![trigger means_along_rows(img, between, w as int, h as int, r)]
            means_along_rows(img, between, w as int, h as int, r) && means_along_columns(
                between,
                blurred(img, w, h, r),
                w as int,
                h as int,
                r,
            ),
{
    let (wi, hi) = (w as int, h as int);
    let out = blurred(img, w, h, r);
    let between = Seq::new(
        img.len(),
        |i: int| box_mean(row(img, w, (i / 4) / wi, i % 4), (i / 4) % wi, r),
    );
    assert forall|x: int, y: int, c: int| 0 <= x < w && 0 <= y < h && 0 <= c < 4 implies
        #[trigger] between[channel_index(wi, x, y, c)] == box_mean(row(img, w, y, c), x, r) by {
        lemma_channel_index(wi, hi, x, y, c);
    }
    assert(means_along_rows(img, between, wi, hi, r)) by {
        assert forall|x: int, y: int, c: int|
            0 <= x < wi && 0 <= y < hi && 0 <= c < 4 implies is_mean(
            #[trigger] between[channel_index(wi, x, y, c)],
            Seq::new(
                (2 * r + 1) as nat,
                |k: int| img[channel_index(wi, nearest(x - r + k, wi), y, c)],
            ),
        ) by {
            let window = Seq::new(
                (2 * r + 1) as nat,
                |k: int| img[channel_index(wi, nearest(x - r + k, wi), y, c)],
            );
            lemma_box_mean_is_mean(row(img, w, y, c), x, r, window);
        }
    }
    assert(means_along_columns(between, out, wi, hi, r)) by {
        assert forall|x: int, y: int, c: int|
            0 <= x < wi && 0 <= y < hi && 0 <= c < 4 implies is_mean(
            #[trigger] out[channel_index(wi, x, y, c)],
            Seq::new(
                (2 * r + 1) as nat,
                |k: int| between[channel_index(wi, x, nearest(y - r + k, hi), c)],
            ),
        ) by {
            let window = Seq::new(
                (2 * r + 1) as nat,
                |k: int| between[channel_index(wi, x, nearest(y - r + k, hi), c)],
            );
            let column = row_blurred_column(img, w, h, r, x, c);
            lemma_channel_index(wi, hi, x, y, c);
            assert forall|k: int| 0 <= k < 2 * r + 1 implies window[k] == column[nearest(
                y - r + k,
                hi,
            )] by {
                let j = nearest(y - r + k, hi);
                assert(between[channel_index(wi, x, j, c)] == box_mean(row(img, w, j, c), x, r));
            }
            lemma_box_mean_is_mean(column, y, r, window);
        }
    }
}

/// Two pictures look the same around two pixels, up to `reach` pixels in every direction, and both
/// pixels are at least so far from every border.
pub open spec fn alike_around(
    a: Seq<u8>,
    wa: int,
    ha: int,
    xa: int,
    ya: int,
    b: Seq<u8>,
    wb: int,
    hb: int,
    xb: int,
    yb: int,
    reach: int,
) -> bool {
    &&& reach <= xa < wa - reach
    &&& reach <= ya < ha - reach
    &&& reach <= xb < wb - reach
    &&& reach <= yb < hb - reach
    &&& forall|i: int, j: int, c: int|
        -reach <= i <= reach && -reach <= j <= reach && 0 <= c < 4 ==> #[trigger] a[channel_index(
            wa,
            xa + i,
            ya + j,
            c,
        )] == b[channel_index(wb, xb + i, yb + j, c)]
}

proof fn lemma_same_window(s: Seq<u8>, i: int, t: Seq<u8>, j: int, lo: int, hi: int)
    requires
        lo <= hi,
        forall|k: int| lo <= k < hi ==> #[trigger] clamped(s, i + k) == clamped(t, j + k),
    ensures
        clamped_sum(s, i + lo, i + hi) == clamped_sum(t, j + lo, j + hi),
    decreases hi - lo,
{
    if lo < hi {
        lemma_same_window(s, i, t, j, lo, hi - 1);
        assert(clamped(s, i + (hi - 1)) == clamped(t, j + (hi - 1)));
    }
}

/// A pixel of a blurred picture depends on what is around it alone, not on the size of the picture or
/// on where in it the pixel stands: where two pictures of any sizes are alike around two pixels, the
/// blurred pictures are alike around them, as far as the radius allows.
pub proof fn law_blur_depends_on_the_surroundings(
    a: Seq<u8>,
    wa: nat,
    ha: nat,
    xa: int,
    ya: int,
    b: Seq<u8>,
    wb: nat,
    hb: nat,
    xb: int,
    yb: int,
    r: nat,
    reach: int,
)
    requires
        wa * ha * 4 <= a.len(),
        wb * hb * 4 <= b.len(),
        wa >= 2 && ha >= 2 && wb >= 2 && hb >= 2,
        0 <= r <= reach,
        alike_around(a, wa as int, ha as int, xa, ya, b, wb as int, hb as int, xb, yb, reach),
    ensures
        alike_around(
            blurred(a, wa, ha, r),
            wa as int,
            ha as int,
            xa,
            ya,
            blurred(b, wb, hb, r),
            wb as int,
            hb as int,
            xb,
            yb,
            reach - r,
        ),
{
    let far = reach - r;
    let (wai, hai, wbi, hbi) = (wa as int, ha as int, wb as int, hb as int);
    assert forall|i: int, j: int, c: int|
        -far <= i <= far && -far <= j <= far && 0 <= c < 4 implies #[trigger] blurred(
        a,
        wa,
        ha,
        r,
    )[channel_index(wai, xa + i, ya + j, c)] == blurred(b, wb, hb, r)[channel_index(
        wbi,
        xb + i,
        yb + j,
        c,
    )] by {
        let (x, y, u, v) = (xa + i, ya + j, xb + i, yb + j);
        lemma_channel_index(wai, hai, x, y, c);
        lemma_channel_index(wbi, hbi, u, v, c);
        if r == 0 {
            assert(a[channel_index(wai, xa + i, ya + j, c)] == b[channel_index(
                wbi,
                xb + i,
                yb + j,
                c,
            )]);
        } else {
            let s = row_blurred_column(a, wa, ha, r, x, c);
            let t = row_blurred_column(b, wb, hb, r, u, c);
            assert forall|k: int| -r <= k < r + 1 implies #[trigger] clamped(s, y + k) == clamped(
                t,
                v + k,
            ) by {
                let p = row(a, wa, y + k, c);
                let q = row(b, wb, v + k, c);
                assert forall|m: int| -r <= m < r + 1 implies #[trigger] clamped(p, x + m)
                    == clamped(q, u + m) by {
                    let (di, dj) = (i + m, j + k);
                    assert(xa + di == x + m && ya + dj == y + k && xb + di == u + m && yb + dj
                        == v + k);
                    assert(a[channel_index(wai, xa + di, ya + dj, c)] == b[channel_index(
                        wbi,
                        xb + di,
                        yb + dj,
                        c,
                    )]);
                }
                lemma_same_window(p, x, q, u, -(r as int), r as int + 1);
                assert(box_mean(p, x, r) == box_mean(q, u, r));
            }
            lemma_same_window(s, y, t, v, -(r as int), r as int + 1);
            assert(box_mean(s, y, r) == box_mean(t, v, r));
        }
    }
}

}
