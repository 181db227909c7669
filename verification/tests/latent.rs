use ai_rt::latent::{LatentFormatError, LatentTexture, HEADER_SIZE, MAGIC};
use ai_rt::texture::{wrapped_pair, Texture};

fn bits(values: &[f32]) -> Vec<u32> {
    values.iter().map(|value| value.to_bits()).collect()
}

fn header(width: u32, height: u32, channels: u32) -> Vec<u8> {
    let mut bytes = MAGIC.to_vec();
    bytes.extend_from_slice(&width.to_le_bytes());
    bytes.extend_from_slice(&height.to_le_bytes());
    bytes.extend_from_slice(&channels.to_le_bytes());
    bytes
}

#[test]
fn latent_texture_round_trips_binary_format() {
    let texture = LatentTexture::from_values(2, 1, 2, bits(&[1.0, 2.0, 3.0, 4.0]));
    let bytes = texture.to_bytes();

    let loaded = LatentTexture::parse(&bytes).unwrap();
    assert_eq!(loaded.channels(), 2);
    assert_eq!((loaded.width(), loaded.height()), (2, 1));
    let decoded: Vec<f32> = (0..2)
        .flat_map(|x| (0..2).map(move |channel| (x, channel)))
        .map(|(x, channel)| f32::from_bits(loaded.value(x, 0, channel)))
        .collect();
    assert_eq!(decoded, vec![1.0, 2.0, 3.0, 4.0]);
    assert_eq!(loaded.to_bytes(), bytes);
}

#[test]
fn latent_file_layout_is_little_endian() {
    let texture = LatentTexture::from_values(1, 1, 1, bits(&[1.0]));
    let bytes = texture.to_bytes();
    assert_eq!(bytes.len(), HEADER_SIZE + 4);
    assert_eq!(&bytes[0..8], b"AIRTLAT1");
    assert_eq!(&bytes[8..20], &[1, 0, 0, 0, 1, 0, 0, 0, 1, 0, 0, 0]);
    assert_eq!(&bytes[20..24], &1.0f32.to_le_bytes());
}

#[test]
fn latent_parse_rejects_bad_headers() {
    assert_eq!(
        LatentTexture::parse(&header(1, 1, 1)[..19]).err(),
        Some(LatentFormatError::InvalidHeader)
    );
    let mut wrong_magic = header(1, 1, 1);
    wrong_magic[7] = b'2';
    wrong_magic.extend_from_slice(&1.0f32.to_le_bytes());
    assert_eq!(
        LatentTexture::parse(&wrong_magic).err(),
        Some(LatentFormatError::InvalidHeader)
    );
    assert_eq!(
        LatentTexture::parse(&header(0, 1, 1)).err(),
        Some(LatentFormatError::ZeroDimension)
    );
    assert_eq!(
        LatentTexture::parse(&header(1, 1, 0)).err(),
        Some(LatentFormatError::ZeroDimension)
    );
    assert_eq!(
        LatentTexture::parse(&header(u32::MAX, u32::MAX, u32::MAX)).err(),
        Some(LatentFormatError::TooLarge)
    );
}

#[test]
fn latent_parse_rejects_wrong_payloads() {
    let mut short = header(2, 1, 1);
    short.extend_from_slice(&1.0f32.to_le_bytes());
    assert_eq!(
        LatentTexture::parse(&short).err(),
        Some(LatentFormatError::PayloadLength)
    );
    let mut long = header(1, 1, 1);
    long.extend_from_slice(&[0; 5]);
    assert_eq!(
        LatentTexture::parse(&long).err(),
        Some(LatentFormatError::PayloadLength)
    );
    for bad in [f32::NAN, f32::INFINITY, f32::NEG_INFINITY] {
        let mut bytes = header(2, 1, 1);
        bytes.extend_from_slice(&0.5f32.to_le_bytes());
        bytes.extend_from_slice(&bad.to_le_bytes());
        assert_eq!(
            LatentTexture::parse(&bytes).err(),
            Some(LatentFormatError::NonFinite)
        );
    }
}

#[test]
fn latent_values_are_texel_major() {
    let texture = LatentTexture::from_values(2, 2, 3, (0..12).collect());
    assert_eq!(texture.value(0, 0, 0), 0);
    assert_eq!(texture.value(1, 0, 2), 5);
    assert_eq!(texture.value(0, 1, 1), 7);
    assert_eq!(texture.value(1, 1, 2), 11);
}

#[test]
fn sampling_neighbours_wrap_around() {
    assert_eq!(wrapped_pair(0, 2), (0, 1));
    assert_eq!(wrapped_pair(1, 2), (1, 0));
    assert_eq!(wrapped_pair(2, 2), (0, 1));
    assert_eq!(wrapped_pair(7, 1), (0, 0));
    assert_eq!(wrapped_pair(u32::MAX, 4), (3, 0));
}

#[test]
fn texture_texels_are_row_major() {
    let texture = Texture::from_pixels(2, 2, vec!['a', 'b', 'c', 'd']);
    assert_eq!((texture.width(), texture.height()), (2, 2));
    assert_eq!(texture.texel(1, 0), 'b');
    assert_eq!(texture.texel(0, 1), 'c');
    assert_eq!(texture.texel(1, 1), 'd');
}
