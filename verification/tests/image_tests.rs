use clipboard_history_manager::icon::{clipboard_icon_rgba, ICON_SIZE};
use clipboard_history_manager::image::{
    needs_downscale, quick_hash, resample_nearest, FNV_OFFSET, FNV_PRIME, MAX_IMAGE_DIM,
};

fn fnv(data: &[u8], step: usize) -> u64 {
    let mut h = FNV_OFFSET;
    let mut i = 0;
    while i < data.len() {
        h ^= data[i] as u64;
        h = h.wrapping_mul(FNV_PRIME);
        i += step;
    }
    h
}

#[test]
fn hash_of_nothing_is_offset_basis() {
    assert_eq!(quick_hash(&[]), 0xcbf29ce484222325);
}

#[test]
fn hash_of_one_byte() {
    assert_eq!(quick_hash(&[0x61]), 0xaf63dc4c8601ec8c);
}

#[test]
fn hash_of_small_data_uses_every_byte() {
    let data: Vec<u8> = (0..2047u32).map(|i| (i % 251) as u8).collect();
    assert_eq!(quick_hash(&data), fnv(&data, 1));
}

#[test]
fn hash_of_large_data_samples() {
    let data: Vec<u8> = (0..5000u32).map(|i| (i % 253) as u8).collect();
    assert_eq!(quick_hash(&data), fnv(&data, 4));
    let mut other = data.clone();
    other[1] = other[1].wrapping_add(1);
    assert_eq!(quick_hash(&other), quick_hash(&data));
    other[4] = other[4].wrapping_add(1);
    assert_ne!(quick_hash(&other), quick_hash(&data));
}

#[test]
fn downscale_only_beyond_limit() {
    assert!(!needs_downscale(MAX_IMAGE_DIM, MAX_IMAGE_DIM));
    assert!(!needs_downscale(1920, 1080));
    assert!(needs_downscale(MAX_IMAGE_DIM + 1, 10));
    assert!(needs_downscale(10, 5000));
}

#[test]
fn resample_picks_source_pixels() {
    // 3x2 source, pixel (x, y) has bytes [x, y, 10*x + y, 255]
    let mut src = Vec::new();
    for y in 0..2u8 {
        for x in 0..3u8 {
            src.extend_from_slice(&[x, y, 10 * x + y, 255]);
        }
    }
    let out = resample_nearest(&src, 3, 2, &[2, 0], &[1]);
    assert_eq!(out, vec![2, 1, 21, 255, 0, 1, 1, 255]);
    let out = resample_nearest(&src, 3, 2, &[], &[0, 1]);
    assert!(out.is_empty());
}

#[test]
fn icon_pixels() {
    let rgba = clipboard_icon_rgba();
    let size = ICON_SIZE as usize;
    assert_eq!(rgba.len(), size * size * 4);
    let px = |x: usize, y: usize| rgba[(y * size + x) * 4..(y * size + x) * 4 + 4].to_vec();
    assert_eq!(px(0, 0), vec![0, 0, 0, 0]);
    assert_eq!(px(4, 3), vec![220, 225, 230, 255]);
    assert_eq!(px(17, 19), vec![220, 225, 230, 255]);
    assert_eq!(px(18, 19), vec![0, 0, 0, 0]);
    assert_eq!(px(8, 1), vec![200, 205, 210, 255]);
    assert_eq!(px(13, 2), vec![200, 205, 210, 255]);
    assert_eq!(px(14, 2), vec![0, 0, 0, 0]);
    assert_eq!(px(6, 7), vec![100, 110, 120, 255]);
    assert_eq!(px(15, 16), vec![100, 110, 120, 255]);
    assert_eq!(px(5, 7), vec![220, 225, 230, 255]);
    assert_eq!(px(6, 8), vec![220, 225, 230, 255]);
}

#[test]
fn resample_reads_only_the_image_prefix() {
    // 1x1 source followed by bytes past its end
    let src = vec![9, 8, 7, 6, 1, 1, 1, 1];
    let out = resample_nearest(&src, 1, 1, &[0, 0], &[0]);
    assert_eq!(out, vec![9, 8, 7, 6, 9, 8, 7, 6]);
}
