use bytes::Bytes;
use geoterm::compression::{compress, decompress};
use geoterm::image::{
    decode, encode, expand, expand_pixel, pack_pixel, quantize, Raster, HEIGHT, SIZE, WIDTH,
};

/// A picture whose bytes follow no pattern that a human would pick.
fn noise(width: u32, height: u32, seed: u32) -> Raster {
    let mut state = seed;
    let mut pixels = Vec::new();
    for _ in 0..(3 * width as usize * height as usize) {
        state = state.wrapping_mul(1_664_525).wrapping_add(1_013_904_223);
        pixels.push((state >> 24) as u8);
    }
    Raster { width, height, pixels }
}

#[test]
fn tile_is_320_by_240() {
    assert_eq!(WIDTH, 320);
    assert_eq!(HEIGHT, 240);
    assert_eq!(SIZE, 76_800);
}

#[test]
fn pixel_keeps_its_top_bits() {
    assert_eq!(pack_pixel(0, 0, 0), 0);
    assert_eq!(pack_pixel(255, 255, 255), 255);
    assert_eq!(pack_pixel(255, 0, 0), 0b1110_0000);
    assert_eq!(pack_pixel(0, 255, 0), 0b0001_1100);
    assert_eq!(pack_pixel(0, 0, 255), 0b0000_0011);
    assert_eq!(pack_pixel(0b1011_1111, 0b0101_1111, 0b1011_1111), 0b1010_1010);
    assert_eq!(pack_pixel(31, 31, 63), 0);
    assert_eq!(pack_pixel(32, 32, 64), 0b0010_0101);
}

#[test]
fn pixel_expands_to_the_palette() {
    assert_eq!(expand_pixel(0), (0, 0, 0));
    assert_eq!(expand_pixel(255), (255, 255, 255));
    assert_eq!(expand_pixel(0b0010_0101), (36, 36, 85));
    assert_eq!(expand_pixel(0b0100_1010), (72, 72, 170));
    assert_eq!(expand_pixel(0b0110_1100), (109, 109, 0));
    assert_eq!(expand_pixel(0b1001_0000), (145, 145, 0));
    assert_eq!(expand_pixel(0b1011_0100), (182, 182, 0));
    assert_eq!(expand_pixel(0b1101_1000), (218, 218, 0));
}

#[test]
fn expanded_colours_are_palette_levels() {
    let reds_and_greens = [0u8, 36, 72, 109, 145, 182, 218, 255];
    let blues = [0u8, 85, 170, 255];
    for packed in 0..=255u8 {
        let (r, g, b) = expand_pixel(packed);
        assert!(reds_and_greens.contains(&r));
        assert!(reds_and_greens.contains(&g));
        assert!(blues.contains(&b));
    }
}

#[test]
fn quantizing_twice_changes_nothing() {
    for packed in 0..=255u8 {
        let (r, g, b) = expand_pixel(packed);
        assert_eq!(pack_pixel(r, g, b), packed);
    }
    let image = noise(4, 3, 1);
    let once = quantize(&image);
    let back = expand(&once, 4, 3).expect("long enough");
    assert_eq!(quantize(&back), once);
}

#[test]
fn colours_move_by_less_than_a_step() {
    for value in 0..=255u8 {
        let (r, g, b) = expand_pixel(pack_pixel(value, value, value));
        assert!((r as i32 - value as i32).abs() < 32);
        assert!((g as i32 - value as i32).abs() < 32);
        assert!((b as i32 - value as i32).abs() < 64);
    }
}

#[test]
fn quantize_packs_row_by_row() {
    let image = Raster {
        width: 2,
        height: 2,
        pixels: vec![255, 0, 0, 0, 255, 0, 0, 0, 255, 255, 255, 255],
    };
    assert_eq!(quantize(&image), vec![0b1110_0000, 0b0001_1100, 0b0000_0011, 0b1111_1111]);
    assert_eq!(quantize(&Raster { width: 0, height: 0, pixels: vec![] }), Vec::<u8>::new());
}

#[test]
fn expand_needs_a_byte_per_pixel() {
    assert_eq!(expand(&[0, 255, 0], 2, 2), None);
    assert_eq!(
        expand(&[0, 255, 0b1110_0000, 0b0000_0011], 2, 2),
        Some(Raster {
            width: 2,
            height: 2,
            pixels: vec![0, 0, 0, 255, 255, 255, 255, 0, 0, 0, 0, 255],
        })
    );
    // what lies beyond the last pixel is left aside
    assert_eq!(
        expand(&[255, 0, 9, 9], 1, 2),
        Some(Raster { width: 1, height: 2, pixels: vec![255, 255, 255, 0, 0, 0] })
    );
    assert_eq!(expand(&[], 0, 0), Some(Raster { width: 0, height: 0, pixels: vec![] }));
    assert_eq!(expand(&[], u32::MAX, u32::MAX), None);
}

#[test]
fn compression_matches_the_reference_vector() {
    let mut bytes = b"Sample   Data   11221233123".to_vec();
    compress(&mut bytes);
    assert_eq!(
        bytes,
        vec![
            169, 216, 109, 183, 11, 101, 149, 246, 13, 18, 195, 116, 176, 191, 81, 152, 204, 102,
            83, 32, 0, 19, 57, 152, 3, 16,
        ]
    );
    decompress(&mut bytes);
    assert_eq!(bytes, b"Sample   Data   11221233123".to_vec());
}

#[test]
fn compression_shrinks_what_repeats() {
    let mut bytes = vec![7u8; 10_000];
    compress(&mut bytes);
    assert!(bytes.len() < 2_000);
    decompress(&mut bytes);
    assert_eq!(bytes, vec![7u8; 10_000]);
}

#[test]
fn compression_of_nothing_is_nothing() {
    let mut bytes = Vec::new();
    compress(&mut bytes);
    assert_eq!(bytes, Vec::<u8>::new());
    decompress(&mut bytes);
    assert_eq!(bytes, Vec::<u8>::new());
}

#[test]
fn packed_tile_survives_compression() {
    let packed = quantize(&noise(WIDTH, HEIGHT, 7));
    assert_eq!(packed.len(), SIZE as usize);
    let mut bytes = packed.clone();
    compress(&mut bytes);
    assert_ne!(bytes, packed);
    decompress(&mut bytes);
    assert_eq!(bytes, packed);
}

#[test]
fn tile_decodes_to_its_quantized_self() {
    let image = noise(WIDTH, HEIGHT, 99);
    let bytes = encode(&image);
    let expected = expand(&quantize(&image), WIDTH, HEIGHT).expect("long enough");
    assert_eq!(decode(&bytes, WIDTH, HEIGHT), Some(expected));
}

#[test]
fn flat_tile_compresses_well() {
    let image = Raster { width: WIDTH, height: HEIGHT, pixels: vec![200u8; 3 * SIZE as usize] };
    let bytes = encode(&image);
    assert!(bytes.len() < SIZE as usize / 4);
    let back = decode(&bytes, WIDTH, HEIGHT).expect("long enough");
    assert_eq!(back.width, WIDTH);
    assert_eq!(back.height, HEIGHT);
    assert_eq!(back.pixels.len(), 3 * SIZE as usize);
    assert!(back.pixels.chunks(3).all(|pixel| pixel == [218, 218, 255]));
}

#[test]
fn larger_picture_of_whole_tiles_round_trips() {
    let image = noise(2 * WIDTH, HEIGHT, 3);
    let bytes = encode(&image);
    let back = decode(&bytes, 2 * WIDTH, HEIGHT).expect("long enough");
    assert_eq!(quantize(&back), quantize(&image));
}

#[test]
fn bytes_for_too_few_pixels_do_not_decode() {
    let small = Raster { width: 0, height: 0, pixels: vec![] };
    let bytes = encode(&small);
    assert_eq!(decode(&bytes, WIDTH, HEIGHT), None);
    assert_eq!(decode(&Bytes::from(vec![1u8, 2, 3]), WIDTH, HEIGHT), None);
    assert_eq!(decode(&bytes, 0, 0), Some(Raster { width: 0, height: 0, pixels: vec![] }));
}
