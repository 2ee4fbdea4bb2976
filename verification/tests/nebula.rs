use rand::Rng;
use rand::SeedableRng;
use focus_space_wallpaper::nebula::generator::{scaled_star_count, star_seed, volume_seed};
use focus_space_wallpaper::nebula::noise_field::{noise_octaves, NoiseOctaves};
use focus_space_wallpaper::nebula::raymarcher::{grid_pixel, render_grid};
use focus_space_wallpaper::nebula::stars::{add_glow, generate_star_draws, star_rng, StarDraw};
use focus_space_wallpaper::resolution::{resolve_resolution, MonitorSize};

#[test]
fn star_count_scales_with_area() {
    assert_eq!(scaled_star_count(1000, 3840, 2160), 1000);
    assert_eq!(scaled_star_count(1000, 7680, 4320), 4000);
    assert_eq!(scaled_star_count(1000, 1920, 1080), 500);
    assert_eq!(scaled_star_count(3000, 2560, 1440), 1333);
    assert_eq!(scaled_star_count(1000, 10, 10), 500);
    assert_eq!(scaled_star_count(0, 3840, 2160), 500);
}

#[test]
fn seeds() {
    assert_eq!(star_seed(1), 1 + 0xDEAD_BEEF);
    assert_eq!(star_seed(u64::MAX), 0xDEAD_BEEE);
    assert_eq!(volume_seed(0x1_2345_6789), 0x2345_6789);
    assert_eq!(volume_seed(42), 42);
}

#[test]
fn octave_plan() {
    assert_eq!(noise_octaves(8), NoiseOctaves { density: 6, detail: 5, emission: 5, warp: 4 });
    assert_eq!(noise_octaves(6), NoiseOctaves { density: 6, detail: 5, emission: 5, warp: 4 });
    assert_eq!(noise_octaves(4), NoiseOctaves { density: 4, detail: 3, emission: 3, warp: 3 });
    assert_eq!(noise_octaves(0), NoiseOctaves { density: 0, detail: 3, emission: 3, warp: 3 });
}

#[test]
fn half_resolution_grid() {
    assert_eq!(render_grid(3840, 2160), (1920, 1080, 1920 * 1080));
    assert_eq!(render_grid(1, 1), (1, 1, 1));
    assert_eq!(render_grid(3, 0), (1, 1, 1));
    assert_eq!(grid_pixel(1925, 1920), (5, 1));
    assert_eq!(grid_pixel(0, 7), (0, 0));
}

#[test]
fn star_draws_stay_inside_the_image() {
    let mut rng = star_rng(7);
    let stars: Vec<StarDraw<f32>> = generate_star_draws(64, 48, 500, &mut rng);
    assert_eq!(stars.len(), 500);
    assert!(stars.iter().all(|s| s.x < 64 && s.y < 48));
    assert!(stars.iter().all(|s| (0.0..1.0).contains(&s.brightness_sample)));
    // The positions are not all the same: the generator is really drawn from.
    assert!(stars.iter().any(|s| s.x != stars[0].x));
    // The same seed gives the same stars.
    let mut again = star_rng(7);
    let stars2: Vec<StarDraw<f32>> = generate_star_draws(64, 48, 500, &mut again);
    assert!(stars.iter().zip(stars2.iter()).all(|(a, b)| a.x == b.x && a.y == b.y
        && a.brightness_sample == b.brightness_sample));
    let none: Vec<StarDraw<f32>> = generate_star_draws(0, 0, 0, &mut rng);
    assert!(none.is_empty());
}

fn monitor(width: u32, height: u32, pw: u32, ph: u32) -> MonitorSize {
    MonitorSize { width, height, physical_width: pw, physical_height: ph }
}

#[test]
fn explicit_resolution_wins() {
    let ms = vec![monitor(100, 100, 150, 150)];
    assert_eq!(resolve_resolution(Some(800), Some(600), Some(&ms)), (800, 600));
    assert_eq!(resolve_resolution(Some(800), Some(600), None), (800, 600));
}

#[test]
fn largest_monitor_fills_in() {
    let ms = vec![
        monitor(1920, 1080, 1920, 1080),
        monitor(2560, 1440, 3840, 2160),
        monitor(1440, 2560, 1440, 2560),
    ];
    // Equal areas: the last one wins.
    assert_eq!(resolve_resolution(None, None, Some(&ms)), (1440, 2560));
    assert_eq!(resolve_resolution(Some(1000), None, Some(&ms)), (1000, 2560));
    let ms = vec![monitor(2560, 1440, 3840, 2160), monitor(1920, 1080, 1920, 1080)];
    assert_eq!(resolve_resolution(None, None, Some(&ms)), (3840, 2160));
}

#[test]
fn default_resolution_without_monitors() {
    assert_eq!(resolve_resolution(None, None, None), (3840, 2160));
    assert_eq!(resolve_resolution(None, Some(1000), None), (3840, 1000));
    assert_eq!(resolve_resolution(None, None, Some(&vec![])), (3840, 2160));
}

#[test]
fn glow_adds_the_kernel_around_the_centre() {
    let (w, h) = (4u32, 3u32);
    let mut pixels = vec![0u8; (w * h * 4) as usize + 2];
    // The pixel at (2, 1) is already bright: its red channel saturates.
    pixels[((1 * w + 2) * 4) as usize] = 250;
    let kernel: Vec<(u8, u8, u8)> = (0..9u8).map(|k| (10 * k, 10 * k + 1, 10 * k + 2)).collect();
    add_glow(&mut pixels, w, h, 1, 1, 1, &kernel);
    let at = |x: u32, y: u32, c: u32| pixels[((y * w + x) * 4 + c) as usize];
    assert_eq!((at(0, 0, 0), at(0, 0, 1), at(0, 0, 2), at(0, 0, 3)), (0, 1, 2, 0));
    assert_eq!((at(1, 1, 0), at(1, 1, 1), at(1, 1, 2)), (40, 41, 42));
    assert_eq!((at(2, 1, 0), at(2, 1, 1), at(2, 1, 2)), (255, 51, 52));
    assert_eq!((at(2, 2, 0), at(2, 2, 1), at(2, 2, 2)), (80, 81, 82));
    assert_eq!((at(3, 1, 0), at(3, 1, 1), at(3, 1, 2)), (0, 0, 0));
    assert_eq!(&pixels[(w * h * 4) as usize..], &[0, 0]);
    // Near an edge the part of the square outside the image is skipped.
    let mut pixels = vec![7u8; (w * h * 4) as usize];
    add_glow(&mut pixels, w, h, 0, 0, 1, &kernel);
    let at = |x: u32, y: u32, c: u32| pixels[((y * w + x) * 4 + c) as usize];
    assert_eq!(at(0, 0, 0), 47);
    assert_eq!(at(1, 1, 0), 87);
    assert_eq!(at(2, 0, 0), 7);
}

#[test]
fn star_count_never_shrinks_with_the_image() {
    let sizes = [(1u32, 1u32), (640, 480), (1920, 1080), (2560, 1440), (3840, 2160), (5120, 2880), (7680, 4320)];
    let counts: Vec<usize> = sizes.iter().map(|&(w, h)| scaled_star_count(1500, w, h)).collect();
    assert!(counts.windows(2).all(|p| p[0] <= p[1]));
    assert!(counts.iter().all(|&c| c >= 500));
    assert_eq!(scaled_star_count(1500, 3840, 2160), 1500);
    assert_eq!(scaled_star_count(300, 3840, 2160), 500);
}

#[test]
fn star_rng_is_seeded_from_the_star_seed() {
    let expected = rand_chacha::ChaCha8Rng::seed_from_u64(7u64.wrapping_add(0xDEAD_BEEF));
    assert!(star_rng(7) == expected);
    assert!(star_rng(7) != rand_chacha::ChaCha8Rng::seed_from_u64(7));
    assert!(star_rng(u64::MAX) == rand_chacha::ChaCha8Rng::seed_from_u64(0xDEAD_BEEE));
}

#[test]
fn star_draws_take_column_then_row_then_brightness() {
    let mut rng = star_rng(11);
    let stars: Vec<StarDraw<f32>> = generate_star_draws(64, 48, 20, &mut rng);
    let mut direct = star_rng(11);
    for s in &stars {
        let x: u32 = direct.gen_range(0..64);
        let y: u32 = direct.gen_range(0..48);
        let b: f32 = direct.gen();
        assert_eq!((s.x, s.y), (x, y));
        assert_eq!(s.brightness_sample, b);
    }
    assert!(rng == direct);
}
