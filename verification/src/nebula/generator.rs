use vstd::prelude::*;

verus! {

/// The star count of the configuration is meant for a 3840 x 2160 image.
pub const REFERENCE_PIXELS: u64 = 3840 * 2160;

/// However small the image, at least this many stars are drawn.
pub const MIN_STARS: u64 = 500;

/// The number of stars for a `width` x `height` image: `star_count` scaled
/// by the image's share of a 3840 x 2160 image (rounded down), and at least
/// `MIN_STARS`.
pub open spec fn scaled_stars(star_count: int, width: int, height: int) -> int {
    let scaled = (star_count * (width * height)) / (REFERENCE_PIXELS as int);
    if scaled >= MIN_STARS { scaled } else { MIN_STARS as int }
}

/// See `scaled_stars`.
pub fn scaled_star_count(star_count: usize, width: u32, height: u32) -> (n: usize)
    requires
        star_count * (width * height) <= u64::MAX,
        scaled_stars(star_count as int, width as int, height as int) <= usize::MAX,
    ensures
        n == scaled_stars(star_count as int, width as int, height as int),
{
    assert(width as u64 * height as u64 <= u64::MAX) by (nonlinear_arith)
        requires
            width <= u32::MAX,
            height <= u32::MAX,
    ;
    let pixels = width as u64 * height as u64;
    assert(star_count as u64 * pixels == star_count * (width * height));
    let scaled = (star_count as u64 * pixels) / REFERENCE_PIXELS;
    let n = if scaled >= MIN_STARS {
        scaled
    } else {
        MIN_STARS
    };
    n as usize
}

/// The seed of the star field's random number generator, derived from the
/// image's seed.
pub fn star_seed(seed: u64) -> (s: u64)
    ensures
        s == (seed + 0xDEAD_BEEF) % 0x1_0000_0000_0000_0000,
{
    seed.wrapping_add(0xDEAD_BEEF)
}

/// The seed of the volume noise: the image's seed truncated to 32 bits.
pub fn volume_seed(seed: u64) -> (s: u32)
    ensures
        s == seed % 0x1_0000_0000,
{
    let low = seed & 0xffff_ffff;
    assert(low == seed % 0x1_0000_0000 && low < 0x1_0000_0000) by (bit_vector)
        requires
            low == seed & 0xffff_ffff,
    ;
    low as u32
}

/// At the reference resolution the configured star count is used as it is
/// (but never fewer than `MIN_STARS`).
pub proof fn lemma_reference_resolution_keeps_star_count(star_count: nat)
    ensures
        scaled_stars(star_count as int, 3840, 2160) == if star_count >= MIN_STARS {
            star_count as int
        } else {
            MIN_STARS as int
        },
{
    let c = star_count as int;
    assert((c * (3840 * 2160)) / 8294400 == c) by (nonlinear_arith);
}

/// The star field grows with the image: an image with more pixels never
/// gets fewer stars, and no image gets fewer than `MIN_STARS`.
pub proof fn lemma_more_pixels_more_stars(star_count: nat, width: nat, height: nat, larger_width: nat, larger_height: nat)
    requires
        width * height <= larger_width * larger_height,
    ensures
        scaled_stars(star_count as int, width as int, height as int) <= scaled_stars(
            star_count as int,
            larger_width as int,
            larger_height as int,
        ),
        scaled_stars(star_count as int, width as int, height as int) >= MIN_STARS,
{
    let a = width * height;
    let b = larger_width * larger_height;
    assert(star_count * a <= star_count * b) by (nonlinear_arith)
        requires
            a <= b,
    ;
    vstd::arithmetic::div_mod::lemma_div_is_ordered(
        (star_count * a) as int,
        (star_count * b) as int,
        REFERENCE_PIXELS as int,
    );
}

} // verus!
