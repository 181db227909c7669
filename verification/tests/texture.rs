use ai_rt::texture::{decode_texture, TextureError};

fn png_bytes(width: u32, height: u32, rgb: &[u8]) -> Vec<u8> {
    let mut bytes = Vec::new();
    {
        let mut encoder = png::Encoder::new(&mut bytes, width, height);
        encoder.set_color(png::ColorType::Rgb);
        encoder.set_depth(png::BitDepth::Eight);
        let mut writer = encoder.write_header().unwrap();
        writer.write_image_data(rgb).unwrap();
    }
    bytes
}

#[test]
fn png_textures_decode_to_their_texels_row_by_row() {
    let rgb = [
        255, 0, 0, 0, 255, 0, 0, 0, 255, //
        10, 20, 30, 40, 50, 60, 70, 80, 90,
    ];
    let bytes = png_bytes(3, 2, &rgb);
    for extension in ["png", "PNG", "apng"] {
        let texture = decode_texture(extension, &bytes).unwrap();
        assert_eq!((texture.width(), texture.height()), (3, 2));
        assert_eq!(texture.texel(0, 0), [255, 0, 0]);
        assert_eq!(texture.texel(2, 0), [0, 0, 255]);
        assert_eq!(texture.texel(0, 1), [10, 20, 30]);
        assert_eq!(texture.texel(2, 1), [70, 80, 90]);
    }
}

#[test]
fn undecodable_texture_files_are_refused() {
    let bytes = png_bytes(1, 1, &[1, 2, 3]);
    assert_eq!(decode_texture("", &bytes).unwrap_err(), TextureError::Undecodable);
    assert_eq!(decode_texture("txt", &bytes).unwrap_err(), TextureError::Undecodable);
    assert_eq!(
        decode_texture("png", b"not an image").unwrap_err(),
        TextureError::Undecodable
    );
    assert_eq!(decode_texture("png", &bytes[..bytes.len() / 2]).unwrap_err(), TextureError::Undecodable);
}
