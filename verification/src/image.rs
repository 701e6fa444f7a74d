//! Image helpers: change detection by a sampled FNV-1a hash, and
//! nearest-neighbour resampling of RGBA pixels.
use vstd::prelude::*;

verus! {

/// Images wider or taller than this are scaled down before they are kept.
pub const MAX_IMAGE_DIM: u32 = 4096;

/// FNV-1a offset basis.
pub const FNV_OFFSET: u64 = 0xcbf29ce484222325;

/// FNV-1a prime.
pub const FNV_PRIME: u64 = 0x100000001b3;

/// Every how many bytes the hash samples one: one in 1024th of the data,
/// and at least every byte.
pub open spec fn sample_step(len: nat) -> nat {
    if len / 1024 > 1 {
        len / 1024
    } else {
        1
    }
}

/// One FNV-1a round: xor the byte in, then multiply, wrapping.
pub open spec fn fnv_mix(h: u64, b: u8) -> u64 {
    (h ^ (b as u64)).wrapping_mul(FNV_PRIME)
}

/// The hash `h` after mixing in the bytes of `data` at positions `i`,
/// `i + step`, `i + 2 * step`, ... that lie before its end.
pub open spec fn fnv_sampled(data: Seq<u8>, step: nat, i: nat, h: u64) -> u64
    decreases (if i <= data.len() {
        data.len() - i
    } else {
        0
    }),
{
    if i >= data.len() || step == 0 {
        h
    } else {
        fnv_sampled(data, step, i + step, fnv_mix(h, data[i as int]))
    }
}

/// The change-detection hash of `data`: FNV-1a over every
/// `sample_step(len)`-th byte, starting with the first.
pub open spec fn quick_hash_spec(data: Seq<u8>) -> u64 {
    fnv_sampled(data, sample_step(data.len()), 0, FNV_OFFSET)
}

/// FNV-1a-ish hash over a sample of the bytes, for change detection only.
pub fn quick_hash(data: &[u8]) -> (h: u64)
    ensures
        h == quick_hash_spec(data@),
{
    let len = data.len();
    let step: usize = if len / 1024 > 1 {
        len / 1024
    } else {
        1
    };
    let mut h: u64 = FNV_OFFSET;
    let mut i: usize = 0;
    while i < len
        invariant
            len == data@.len(),
            step >= 1,
            step == sample_step(len as nat),
            i <= len,
            quick_hash_spec(data@) == fnv_sampled(data@, step as nat, i as nat, h),
        decreases len - i,
    {
        let ghost h0 = h;
        h = h ^ (data[i] as u64);
        h = h.wrapping_mul(FNV_PRIME);
        assert(h == fnv_mix(h0, data@[i as int]));
        assert(fnv_sampled(data@, step as nat, i as nat, h0) == fnv_sampled(
            data@,
            step as nat,
            (i + step) as nat,
            h,
        ));
        if len - i <= step {
            assert(fnv_sampled(data@, step as nat, (i + step) as nat, h) == h);
            assert(fnv_sampled(data@, step as nat, len as nat, h) == h);
            i = len;
        } else {
            i = i + step;
        }
    }
    h
}

/// Whether an image of this size is larger than what is kept.
pub fn needs_downscale(width: u32, height: u32) -> (r: bool)
    ensures
        r == (width > MAX_IMAGE_DIM || height > MAX_IMAGE_DIM),
{
    !(width <= MAX_IMAGE_DIM && height <= MAX_IMAGE_DIM)
}

/// Offset of channel `c` of pixel (`x`, `y`) in an RGBA buffer whose rows
/// are `w` pixels wide.
pub open spec fn pixel_offset(w: int, x: int, y: int, c: int) -> int {
    (y * w + x) * 4 + c
}

proof fn lemma_offset_bounds(w: int, h: int, x: int, y: int, c: int)
    requires
        0 <= x < w,
        0 <= y < h,
        0 <= c < 4,
    ensures
        0 <= y * w,
        y * w + x < w * h,
        0 <= pixel_offset(w, x, y, c) < w * h * 4,
        pixel_offset(w, x, y, c) + 4 - c <= w * h * 4,
        pixel_offset(w, x, y, c) < pixel_offset(w, 0, y + 1, 0),
{
    assert(0 <= y * w) by (nonlinear_arith)
        requires
            0 <= y,
            0 <= w,
    ;
    assert(y * w + x < w * h) by (nonlinear_arith)
        requires
            0 <= x < w,
            0 <= y < h,
    ;
    assert((y + 1) * w == y * w + w) by (nonlinear_arith);
}

/// Nearest-neighbour resampling: the pixel at (`x`, `y`) of the result is
/// the pixel at (`src_cols[x]`, `src_rows[y]`) of the `width`-wide source,
/// whose first `width * height` pixels are read.
pub fn resample_nearest(rgba: &[u8], width: u32, height: u32, src_cols: &[u32], src_rows: &[u32]) -> (out: Vec<u8>)
    requires
        rgba@.len() >= width * height * 4,
        src_cols@.len() * src_rows@.len() * 4 <= usize::MAX,
        forall|x: int| 0 <= x < src_cols@.len() ==> #[trigger] src_cols@[x] < width,
        forall|y: int| 0 <= y < src_rows@.len() ==> #[trigger] src_rows@[y] < height,
    ensures
        out@.len() == src_cols@.len() * src_rows@.len() * 4,
        forall|x: int, y: int, c: int|
            0 <= x < src_cols@.len() && 0 <= y < src_rows@.len() && 0 <= c < 4 ==> #[trigger] out@[pixel_offset(
                src_cols@.len() as int,
                x,
                y,
                c,
            )] == rgba@[pixel_offset(width as int, src_cols@[x] as int, src_rows@[y] as int, c)],
{
    let rgba_len = rgba.len();
    let new_w = src_cols.len();
    let new_h = src_rows.len();
    let ghost w = new_w as int;
    let mut out: Vec<u8> = Vec::new();
    let mut y: usize = 0;
    while y < new_h
        invariant
            new_w == src_cols@.len(),
            new_h == src_rows@.len(),
            w == new_w,
            rgba@.len() >= width * height * 4,
            rgba_len == rgba@.len(),
            new_w * new_h * 4 <= usize::MAX,
            forall|x: int| 0 <= x < src_cols@.len() ==> #[trigger] src_cols@[x] < width,
            forall|y: int| 0 <= y < src_rows@.len() ==> #[trigger] src_rows@[y] < height,
            y <= new_h,
            out@.len() == pixel_offset(w, 0, y as int, 0),
            forall|x: int, yy: int, c: int|
                0 <= x < w && 0 <= yy < y && 0 <= c < 4 ==> #[trigger] out@[pixel_offset(w, x, yy, c)]
                    == rgba@[pixel_offset(width as int, src_cols@[x] as int, src_rows@[yy] as int, c)],
        decreases new_h - y,
    {
        let sy = src_rows[y];
        let mut x: usize = 0;
        while x < new_w
            invariant
                new_w == src_cols@.len(),
                new_h == src_rows@.len(),
                w == new_w,
                rgba@.len() >= width * height * 4,
                rgba_len == rgba@.len(),
                new_w * new_h * 4 <= usize::MAX,
                forall|x: int| 0 <= x < src_cols@.len() ==> #[trigger] src_cols@[x] < width,
                y < new_h,
                sy == src_rows@[y as int],
                sy < height,
                x <= new_w,
                out@.len() == pixel_offset(w, x as int, y as int, 0),
                forall|xx: int, yy: int, c: int|
                    0 <= xx < w && 0 <= yy < y && 0 <= c < 4 ==> #[trigger] out@[pixel_offset(w, xx, yy, c)]
                        == rgba@[pixel_offset(width as int, src_cols@[xx] as int, src_rows@[yy] as int, c)],
                forall|xx: int, c: int|
                    0 <= xx < x && 0 <= c < 4 ==> #[trigger] out@[pixel_offset(w, xx, y as int, c)]
                        == rgba@[pixel_offset(width as int, src_cols@[xx] as int, sy as int, c)],
            decreases new_w - x,
        {
            let sx = src_cols[x];
            proof {
                lemma_offset_bounds(width as int, height as int, sx as int, sy as int, 0);
                lemma_offset_bounds(w, new_h as int, x as int, y as int, 0);
            }
            assert(rgba@.len() <= usize::MAX);
            assert(sy * width + sx < width * height);
            assert(sy * width <= usize::MAX);
            let si: usize = (sy as usize * width as usize + sx as usize) * 4;
            assert(si == pixel_offset(width as int, sx as int, sy as int, 0));
            let ghost start = out@.len();
            let ghost before = out@;
            out.push(rgba[si]);
            out.push(rgba[si + 1]);
            out.push(rgba[si + 2]);
            out.push(rgba[si + 3]);
            assert forall|xx: int, yy: int, c: int|
                0 <= xx < w && 0 <= yy < y && 0 <= c < 4 implies #[trigger] out@[pixel_offset(w, xx, yy, c)]
                    == rgba@[pixel_offset(width as int, src_cols@[xx] as int, src_rows@[yy] as int, c)] by {
                lemma_offset_bounds(w, y as int, xx, yy, c);
                assert(pixel_offset(w, 0, yy + 1, 0) <= pixel_offset(w, 0, y as int, 0)) by (nonlinear_arith)
                    requires yy + 1 <= y, 0 <= w;
                assert(out@[pixel_offset(w, xx, yy, c)] == before[pixel_offset(w, xx, yy, c)]);
            }
            assert forall|xx: int, c: int|
                0 <= xx < x + 1 && 0 <= c < 4 implies #[trigger] out@[pixel_offset(w, xx, y as int, c)]
                    == rgba@[pixel_offset(width as int, src_cols@[xx] as int, sy as int, c)] by {
                if xx < x {
                    assert(out@[pixel_offset(w, xx, y as int, c)] == before[pixel_offset(w, xx, y as int, c)]);
                } else {
                    assert(pixel_offset(w, xx, y as int, c) == start + c);
                    assert(pixel_offset(width as int, sx as int, sy as int, c) == si + c);
                }
            }
            x = x + 1;
        }
        assert(pixel_offset(w, new_w as int, y as int, 0) == pixel_offset(w, 0, y as int + 1, 0)) by (nonlinear_arith)
            requires w == new_w;
        y = y + 1;
    }
    assert(pixel_offset(w, 0, new_h as int, 0) == new_w * new_h * 4) by (nonlinear_arith)
        requires w == new_w;
    out
}

} // verus!
