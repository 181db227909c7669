use ai_rt::png_file::{encode_png, PngWriteError};
use ai_rt::tiles::{
    morton_coordinates, row_major_pixels, slot_position, tile_buffer_len, tiles_needed, PixelData,
    TILE_SIZE,
};

#[test]
fn morton_coordinates_follow_z_order() {
    let coordinates: Vec<_> = (0..8).map(morton_coordinates).collect();

    assert_eq!(
        coordinates,
        vec![
            (0, 0),
            (1, 0),
            (0, 1),
            (1, 1),
            (2, 0),
            (3, 0),
            (2, 1),
            (3, 1)
        ]
    );
}

#[test]
fn row_major_pixels_unshuffles_morton_tiles() {
    let tile_pixels: Vec<_> = (0..4)
        .flat_map(|tile_index| {
            (0..TILE_SIZE * TILE_SIZE).map(move |morton_index| {
                PixelData::new((tile_index * 64 + morton_index) as u8, 0, 0)
            })
        })
        .collect();
    let pixels = row_major_pixels(9, 10, &tile_pixels);

    assert_eq!(&pixels[0..3], &[0, 0, 0]);
    assert_eq!(&pixels[3..6], &[1, 0, 0]);
    assert_eq!(&pixels[(8 * 3)..(9 * 3)], &[64, 0, 0]);
    assert_eq!(&pixels[(9 * 8 * 3)..(9 * 8 * 3 + 3)], &[128, 0, 0]);
    assert_eq!(&pixels[((9 * 9 + 8) * 3)..((9 * 9 + 9) * 3)], &[194, 0, 0]);
}

#[test]
fn morton_coordinates_cover_a_tile_once() {
    let mut seen = [[false; 8]; 8];
    for index in 0..64 {
        let (x, y) = morton_coordinates(index);
        assert!(x < 8 && y < 8);
        assert!(!seen[y][x]);
        seen[y][x] = true;
    }
    assert_eq!(morton_coordinates(63), (7, 7));
    assert_eq!(morton_coordinates(42), (0, 7));
    assert_eq!(morton_coordinates(21), (7, 0));
    // Only the low six bits count.
    assert_eq!(morton_coordinates(64 + 5), morton_coordinates(5));
}

#[test]
fn slot_positions_walk_tiles_row_by_row() {
    // Two tiles per row: slot 64 starts the second tile, slot 128 the second row.
    assert_eq!(slot_position(0, 2), (0, 0));
    assert_eq!(slot_position(64, 2), (8, 0));
    assert_eq!(slot_position(128, 2), (0, 8));
    assert_eq!(slot_position(128 + 3, 2), (1, 9));
    assert_eq!(slot_position(64 * 3 + 63, 2), (15, 15));
}

#[test]
fn tile_counts_round_up() {
    assert_eq!(tiles_needed(0), 0);
    assert_eq!(tiles_needed(1), 1);
    assert_eq!(tiles_needed(8), 1);
    assert_eq!(tiles_needed(9), 2);
    assert_eq!(tiles_needed(u32::MAX), 1 << 29);
    assert_eq!(tile_buffer_len(9, 10), Some(2 * 2 * TILE_SIZE * TILE_SIZE));
    assert_eq!(tile_buffer_len(64, 64), Some(64 * 64));
    assert_eq!(tile_buffer_len(0, 5), Some(0));
}

#[test]
fn row_major_pixels_leave_missing_tiles_black() {
    // A 9x1 image needs two tiles; only the first is given.
    let tile_pixels: Vec<_> = (0..64).map(|i| PixelData::new(i as u8 + 1, 2, 3)).collect();
    let pixels = row_major_pixels(9, 1, &tile_pixels);
    assert_eq!(pixels.len(), 27);
    assert_eq!(&pixels[0..3], &[1, 2, 3]);
    assert_eq!(&pixels[3..6], &[2, 2, 3]);
    assert_eq!(&pixels[6..9], &[5, 2, 3]);
    assert_eq!(&pixels[24..27], &[0, 0, 0]);
}

#[test]
fn row_major_pixels_of_empty_buffer_are_black() {
    let pixels = row_major_pixels(3, 2, &[]);
    assert_eq!(pixels, vec![0; 18]);
    assert_eq!(row_major_pixels(0, 0, &[]), Vec::<u8>::new());
}

#[test]
fn write_rgb_copies_three_bytes_at_offset() {
    let mut bytes = vec![9u8; 7];
    PixelData::new(1, 2, 3).write_rgb(&mut bytes, 2);
    assert_eq!(bytes, vec![9, 9, 1, 2, 3, 9, 9]);
    assert_eq!(PixelData::default(), PixelData::new(0, 0, 0));
}

#[test]
fn encode_png_writes_a_decodable_rgb_image() {
    let tile_pixels: Vec<_> = (0..64).map(|i| PixelData::new(i as u8, 100, 200)).collect();
    let bytes = encode_png(2, 2, &tile_pixels).unwrap();
    assert_eq!(&bytes[0..8], &[137, 80, 78, 71, 13, 10, 26, 10]);

    let decoder = png::Decoder::new(std::io::Cursor::new(bytes));
    let mut reader = decoder.read_info().unwrap();
    let mut buffer = vec![0; reader.output_buffer_size().unwrap()];
    let info = reader.next_frame(&mut buffer).unwrap();
    assert_eq!((info.width, info.height), (2, 2));
    assert_eq!(info.color_type, png::ColorType::Rgb);
    assert_eq!(
        &buffer[..info.buffer_size()],
        &[0, 100, 200, 1, 100, 200, 2, 100, 200, 3, 100, 200]
    );
}

#[test]
fn encode_png_refuses_empty_images() {
    assert_eq!(encode_png(0, 3, &[]), Err(PngWriteError::Encoding));
    assert_eq!(encode_png(3, 0, &[]), Err(PngWriteError::Encoding));
}
