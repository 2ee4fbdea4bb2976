use vstd::prelude::*;

use rand::distributions::{Distribution, Standard};
use rand::{Rng, SeedableRng};
use rand_chacha::ChaCha8Rng;

use crate::nebula::generator::star_seed;

verus! {

/// `rand_chacha::ChaCha8Rng`, the seeded generator of the star field,
/// carried through opaquely.
#[verifier::external_type_specification]
#[verifier::external_body]
pub struct ExChaCha8Rng(ChaCha8Rng);

/// The random draws one star is made from: its pixel and a sample of the
/// `Standard` distribution that sets its brightness.
#[derive(Clone, Copy, Debug)]
pub struct StarDraw<S> {
    pub x: u32,
    pub y: u32,
    pub brightness_sample: S,
}

/// The ChaCha8 generator that `SeedableRng::seed_from_u64` makes from
/// `seed`: its seed is expanded from `seed` alone, so equal seeds give equal
/// generators (rand_core documents the expansion as value-stable).
pub uninterp spec fn chacha8_from_u64(seed: u64) -> ChaCha8Rng;

/// A ChaCha8 generator seeded from `seed` (`SeedableRng::seed_from_u64`):
/// the generator `chacha8_from_u64(seed)`; nothing more is claimed of its
/// state.
#[verifier::external_body]
fn seeded_rng(seed: u64) -> (r: ChaCha8Rng)
    ensures
        r == chacha8_from_u64(seed),
{
    ChaCha8Rng::seed_from_u64(seed)
}

/// The random number generator of the star field of the image with seed
/// `seed`: the ChaCha8 generator seeded from `star_seed(seed)`, so that one
/// image seed always gives the same star field.
pub fn star_rng(seed: u64) -> (r: ChaCha8Rng)
    ensures
        r == chacha8_from_u64(((seed + 0xDEAD_BEEF) % 0x1_0000_0000_0000_0000) as u64),
{
    seeded_rng(star_seed(seed))
}

/// The value `Rng::gen_range(0..bound)` draws from a ChaCha8 generator in
/// state `rng`: it depends on that state and the bound alone.
pub uninterp spec fn chacha8_below(rng: ChaCha8Rng, bound: u32) -> u32;

/// The state a ChaCha8 generator in state `rng` is left in by
/// `Rng::gen_range(0..bound)`.
pub uninterp spec fn chacha8_after_below(rng: ChaCha8Rng, bound: u32) -> ChaCha8Rng;

/// `Rng::gen_range(0..bound)`: a value drawn uniformly from `0..bound`. Its
/// documentation says it panics on an empty range, so `bound` must be
/// positive. The value lies in the range; it and the generator's next state
/// are functions of the generator's state and the bound (named
/// `chacha8_below` and `chacha8_after_below`).
#[verifier::external_body]
fn gen_below(rng: &mut ChaCha8Rng, bound: u32) -> (r: u32)
    requires
        bound > 0,
    ensures
        r < bound,
        r == chacha8_below(*old(rng), bound),
        *final(rng) == chacha8_after_below(*old(rng), bound),
{
    rng.gen_range(0..bound)
}

/// `Rng::gen`: a value drawn from the `Standard` distribution. Nothing is
/// claimed of it (for single-precision values the distribution is uniform
/// over `[0, 1)`, which the library does not rely on).
#[verifier::external_body]
fn gen_standard<S>(rng: &mut ChaCha8Rng) -> S where Standard: Distribution<S> {
    rng.gen()
}

/// Draws `count` stars for a `width` x `height` image: for each star, in
/// turn, its column, its row and its brightness sample. The column and the
/// row are the generator's draws below `width` and `height` from the state
/// the generator is in when the star's turn comes, the first star's from the
/// state it was handed in.
pub fn generate_star_draws<S>(
    width: u32,
    height: u32,
    count: usize,
    rng: &mut ChaCha8Rng,
) -> (stars: Vec<StarDraw<S>>) where Standard: Distribution<S>
    requires
        count > 0 ==> width > 0 && height > 0,
    ensures
        stars@.len() == count,
        forall|i: int|
            0 <= i < count ==> #[trigger] stars@[i].x < width && stars@[i].y < height,
        exists|states: Seq<ChaCha8Rng>|
            {
                &&& states.len() == count
                &&& count > 0 ==> states[0] == *old(rng)
                &&& forall|i: int|
                    0 <= i < count ==> #[trigger] stars@[i].x == chacha8_below(states[i], width)
                        && stars@[i].y == chacha8_below(
                        chacha8_after_below(states[i], width),
                        height,
                    )
            },
{
    let ghost start = *rng;
    let ghost mut states: Seq<ChaCha8Rng> = Seq::empty();
    let mut stars: Vec<StarDraw<S>> = Vec::new();
    let mut i: usize = 0;
    while i < count
        invariant
            i <= count,
            count > 0 ==> width > 0 && height > 0,
            stars@.len() == i,
            states.len() == i,
            i == 0 ==> *rng == start,
            i > 0 ==> states[0] == start,
            forall|j: int|
                0 <= j < i ==> #[trigger] stars@[j].x < width && stars@[j].y < height,
            forall|j: int|
                0 <= j < i ==> #[trigger] stars@[j].x == chacha8_below(states[j], width)
                    && stars@[j].y == chacha8_below(chacha8_after_below(states[j], width), height),
        decreases count - i,
    {
        proof {
            states = states.push(*rng);
        }
        let x = gen_below(rng, width);
        let y = gen_below(rng, height);
        let brightness_sample: S = gen_standard(rng);
        stars.push(StarDraw { x, y, brightness_sample });
        i = i + 1;
    }
    assert(states.len() == count);
    stars
}

/// The index of channel `c` of pixel (`px`, `py`) in an RGBA buffer of rows
/// `width` pixels wide.
pub open spec fn rgba_index(width: int, px: int, py: int, c: int) -> int {
    (py * width + px) * 4 + c
}

/// The glow kernel entry for the offset (`dx`, `dy`) from the centre of a
/// square kernel of radius `radius`, stored row by row.
pub open spec fn kernel_index(radius: int, dx: int, dy: int) -> int {
    (dy + radius) * (2 * radius + 1) + (dx + radius)
}

/// Colour channel `c` (0 red, 1 green, 2 blue) of a glow entry.
pub open spec fn glow_channel(g: (u8, u8, u8), c: int) -> u8 {
    if c == 0 {
        g.0
    } else if c == 1 {
        g.1
    } else {
        g.2
    }
}

/// `a + b`, capped at 255 (`u8::saturating_add`).
pub open spec fn add_capped(a: u8, b: u8) -> u8 {
    if a + b > 255 {
        255
    } else {
        (a + b) as u8
    }
}

/// Pixel (`px`, `py`) lies in the square of radius `radius` around
/// (`cx`, `cy`).
pub open spec fn in_square(cx: int, cy: int, radius: int, px: int, py: int) -> bool {
    cx - radius <= px <= cx + radius && cy - radius <= py <= cy + radius
}

/// What a pixel channel holds after the glow is added: inside the square,
/// the red, green and blue channels gain the kernel's entry for the pixel's
/// offset (capped at 255); everything else keeps its value.
pub open spec fn glowed(
    old: Seq<u8>,
    width: int,
    cx: int,
    cy: int,
    radius: int,
    glow: Seq<(u8, u8, u8)>,
    px: int,
    py: int,
    c: int,
) -> u8 {
    if c < 3 && in_square(cx, cy, radius, px, py) {
        add_capped(
            old[rgba_index(width, px, py, c)],
            glow_channel(glow[kernel_index(radius, px - cx, py - cy)], c),
        )
    } else {
        old[rgba_index(width, px, py, c)]
    }
}


/// `glowed`, for the part of the square that has been drawn: the rows above
/// offset `row`, and in row `row` the columns left of offset `col`.
pub open spec fn glowed_until(
    old: Seq<u8>,
    width: int,
    cx: int,
    cy: int,
    radius: int,
    glow: Seq<(u8, u8, u8)>,
    px: int,
    py: int,
    c: int,
    row: int,
    col: int,
) -> u8 {
    if py - cy < row || (py - cy == row && px - cx < col) {
        glowed(old, width, cx, cy, radius, glow, px, py, c)
    } else {
        old[rgba_index(width, px, py, c)]
    }
}

proof fn lemma_rgba_index_bounds(width: int, height: int, px: int, py: int, c: int)
    requires
        0 <= px < width,
        0 <= py < height,
        0 <= c < 4,
    ensures
        0 <= rgba_index(width, px, py, c) < width * height * 4,
{
    assert(0 <= py * width) by (nonlinear_arith)
        requires
            0 <= py,
            0 <= width,
    ;
    assert(py * width + px < width * height) by (nonlinear_arith)
        requires
            0 <= px < width,
            0 <= py < height,
    ;
}

proof fn lemma_rgba_index_unique(width: int, px: int, py: int, c: int, qx: int, qy: int, d: int)
    requires
        0 <= px < width,
        0 <= qx < width,
        0 <= py,
        0 <= qy,
        0 <= c < 4,
        0 <= d < 4,
        rgba_index(width, px, py, c) == rgba_index(width, qx, qy, d),
    ensures
        px == qx,
        py == qy,
        c == d,
{
    let a = py * width + px;
    let b = qy * width + qx;
    assert(a == b && c == d);
    assert(py == qy) by (nonlinear_arith)
        requires
            py * width + px == qy * width + qx,
            0 <= px < width,
            0 <= qx < width,
            0 <= py,
            0 <= qy,
    ;
}

/// Adds the glow of one star to an RGBA pixel buffer: every pixel of the
/// image within `radius` of (`cx`, `cy`), row by row, gains the kernel's
/// colour for its offset on its red, green and blue channels (capped at
/// 255). The kernel holds `(2 * radius + 1)^2` entries, row by row.
pub fn add_glow(
    pixels: &mut Vec<u8>,
    width: u32,
    height: u32,
    cx: i32,
    cy: i32,
    radius: i32,
    glow: &Vec<(u8, u8, u8)>,
)
    requires
        0 <= radius <= 1000,
        i32::MIN + 1000 <= cx <= i32::MAX - 1000,
        i32::MIN + 1000 <= cy <= i32::MAX - 1000,
        glow@.len() == (2 * radius + 1) * (2 * radius + 1),
        width * height * 4 <= u32::MAX,
        width * height * 4 <= old(pixels)@.len(),
    ensures
        final(pixels)@.len() == old(pixels)@.len(),
        forall|px: int, py: int, c: int|
            0 <= px < width && 0 <= py < height && 0 <= c < 4 ==> #[trigger] final(pixels)@[rgba_index(
                width as int,
                px,
                py,
                c,
            )] == glowed(old(pixels)@, width as int, cx as int, cy as int, radius as int, glow@, px, py, c),
        forall|i: int|
            width * height * 4 <= i < old(pixels)@.len() ==> #[trigger] final(pixels)@[i] == old(
                pixels,
            )@[i],
{
    let ghost old_pixels = pixels@;
    let ghost w = width as int;
    let ghost h = height as int;
    let side: usize = (2 * radius + 1) as usize;
    let width_limit: i32 = if width <= 0x7fff_ffff {
        width as i32
    } else {
        i32::MAX
    };
    let height_limit: i32 = if height <= 0x7fff_ffff {
        height as i32
    } else {
        i32::MAX
    };
    let mut dy: i32 = -radius;
    while dy <= radius
        invariant
            0 <= radius <= 1000,
            i32::MIN + 1000 <= cx <= i32::MAX - 1000,
            i32::MIN + 1000 <= cy <= i32::MAX - 1000,
            w == width,
            h == height,
            side == 2 * radius + 1,
            glow@.len() == side * side,
            width * height * 4 <= u32::MAX,
            width * height * 4 <= old_pixels.len(),
            width_limit == if width <= 0x7fff_ffff { width as int } else { i32::MAX as int },
            height_limit == if height <= 0x7fff_ffff { height as int } else { i32::MAX as int },
            -radius <= dy <= radius + 1,
            pixels@.len() == old_pixels.len(),
            forall|px: int, py: int, c: int|
                0 <= px < w && 0 <= py < h && 0 <= c < 4 ==> #[trigger] pixels@[rgba_index(
                    w,
                    px,
                    py,
                    c,
                )] == glowed_until(old_pixels, w, cx as int, cy as int, radius as int, glow@, px, py, c, dy as int, -radius),
            forall|i: int| w * h * 4 <= i < old_pixels.len() ==> #[trigger] pixels@[i] == old_pixels[i],
        decreases radius + 1 - dy,
    {
        let mut dx: i32 = -radius;
        while dx <= radius
            invariant
                0 <= radius <= 1000,
                i32::MIN + 1000 <= cx <= i32::MAX - 1000,
                i32::MIN + 1000 <= cy <= i32::MAX - 1000,
                w == width,
                h == height,
                side == 2 * radius + 1,
                glow@.len() == side * side,
                width * height * 4 <= u32::MAX,
                width * height * 4 <= old_pixels.len(),
                width_limit == if width <= 0x7fff_ffff { width as int } else { i32::MAX as int },
                height_limit == if height <= 0x7fff_ffff { height as int } else { i32::MAX as int },
                -radius <= dy <= radius,
                -radius <= dx <= radius + 1,
                pixels@.len() == old_pixels.len(),
                forall|px: int, py: int, c: int|
                    0 <= px < w && 0 <= py < h && 0 <= c < 4 ==> #[trigger] pixels@[rgba_index(
                        w,
                        px,
                        py,
                        c,
                    )] == glowed_until(old_pixels, w, cx as int, cy as int, radius as int, glow@, px, py, c, dy as int, dx as int),
                forall|i: int| w * h * 4 <= i < old_pixels.len() ==> #[trigger] pixels@[i] == old_pixels[i],
            decreases radius + 1 - dx,
        {
            let px = cx + dx;
            let py = cy + dy;
            if px < 0 || py < 0 || px >= width_limit || py >= height_limit {
                proof {
                    assert forall|qx: int, qy: int, c: int|
                        0 <= qx < w && 0 <= qy < h && 0 <= c < 4 implies #[trigger] pixels@[rgba_index(
                            w,
                            qx,
                            qy,
                            c,
                        )] == glowed_until(old_pixels, w, cx as int, cy as int, radius as int, glow@, qx, qy, c, dy as int, dx + 1) by {
                        assert(w <= w * h) by (nonlinear_arith)
                            requires
                                0 <= qy < h,
                                0 <= w,
                        ;
                        assert(h <= w * h) by (nonlinear_arith)
                            requires
                                0 <= qx < w,
                                0 <= h,
                        ;
                        assert(qx != px || qy != py);
                    }
                }
            } else {
                let ghost gx = px as int;
                let ghost gy = py as int;
                proof {
                    assert(gx < w && gy < h);
                    lemma_rgba_index_bounds(w, h, gx, gy, 0);
                    lemma_rgba_index_bounds(w, h, gx, gy, 3);
                    assert((py as u32) * width + (px as u32) == gy * w + gx);
                }
                let base = ((py as u32) * width + (px as u32)) as usize * 4;
                assert(base == rgba_index(w, gx, gy, 0));
                assert(((dy + radius) as usize) * side <= 2000 * 2001) by (nonlinear_arith)
                    requires
                        0 <= dy + radius <= 2000,
                        side <= 2001,
                ;
                let k = ((dy + radius) as usize) * side + ((dx + radius) as usize);
                proof {
                    assert(k == kernel_index(radius as int, dx as int, dy as int));
                    assert(k < side * side) by (nonlinear_arith)
                        requires
                            k == (dy + radius) * side + (dx + radius),
                            0 <= dy + radius < side,
                            0 <= dx + radius < side,
                    ;
                }
                let g = glow[k];
                let ghost before = pixels@;
                let r0 = pixels[base].saturating_add(g.0);
                pixels.set(base, r0);
                let r1 = pixels[base + 1].saturating_add(g.1);
                pixels.set(base + 1, r1);
                let r2 = pixels[base + 2].saturating_add(g.2);
                pixels.set(base + 2, r2);
                proof {
                    assert forall|qx: int, qy: int, c: int|
                        0 <= qx < w && 0 <= qy < h && 0 <= c < 4 implies #[trigger] pixels@[rgba_index(
                            w,
                            qx,
                            qy,
                            c,
                        )] == glowed_until(old_pixels, w, cx as int, cy as int, radius as int, glow@, qx, qy, c, dy as int, dx + 1) by {
                        let q = rgba_index(w, qx, qy, c);
                        lemma_rgba_index_bounds(w, h, qx, qy, c);
                        assert(before[q] == glowed_until(old_pixels, w, cx as int, cy as int, radius as int, glow@, qx, qy, c, dy as int, dx as int));
                        if qx == gx && qy == gy {
                            assert(before[q] == old_pixels[q]);
                        } else {
                            if q == base || q == base + 1 || q == base + 2 {
                                let d = q - base;
                                assert(q == rgba_index(w, gx, gy, d));
                                lemma_rgba_index_unique(w, qx, qy, c, gx, gy, d);
                            }
                            assert(pixels@[q] == before[q]);
                        }
                    }
                    assert forall|i: int| w * h * 4 <= i < old_pixels.len() implies #[trigger] pixels@[i]
                        == old_pixels[i] by {
                        assert(before[i] == old_pixels[i]);
                    }
                }
            }
            dx = dx + 1;
        }
        proof {
            assert forall|qx: int, qy: int, c: int|
                0 <= qx < w && 0 <= qy < h && 0 <= c < 4 implies #[trigger] pixels@[rgba_index(
                    w,
                    qx,
                    qy,
                    c,
                )] == glowed_until(old_pixels, w, cx as int, cy as int, radius as int, glow@, qx, qy, c, dy + 1, -radius) by {
                let q = rgba_index(w, qx, qy, c);
                assert(pixels@[q] == glowed_until(old_pixels, w, cx as int, cy as int, radius as int, glow@, qx, qy, c, dy as int, radius + 1));
            }
        }
        dy = dy + 1;
    }
    proof {
        assert forall|px: int, py: int, c: int|
            0 <= px < w && 0 <= py < h && 0 <= c < 4 implies #[trigger] pixels@[rgba_index(
                w,
                px,
                py,
                c,
            )] == glowed(old_pixels, w, cx as int, cy as int, radius as int, glow@, px, py, c) by {
            let q = rgba_index(w, px, py, c);
            assert(pixels@[q] == glowed_until(old_pixels, w, cx as int, cy as int, radius as int, glow@, px, py, c, radius + 1, -radius));
        }
    }
}


} // verus!
