//! Texel grids sampled with wrap-around addressing, and the decoding of
//! texture image files into them.
use vstd::prelude::*;

verus! {

/// The texel columns (or rows) that bilinear sampling blends: the one the
/// sample point falls in, wrapped into the texture, and the next one, wrapped
/// around the edge.
pub fn wrapped_pair(start: u32, size: u32) -> (pair: (u32, u32))
    requires
        size > 0,
    ensures
        pair.0 == start % size,
        pair.1 == (start % size + 1) % (size as int),
        pair.0 < size,
        pair.1 < size,
{
    let first = start % size;
    let second = (first + 1) % size;
    (first, second)
}

/// A `width` x `height` grid of texels stored row after row.
#[derive(Debug)]
pub struct Texture<T> {
    width: u32,
    height: u32,
    pixels: Vec<T>,
}

impl<T> Texture<T> {
    /// Neither dimension is zero and there is one texel per grid cell, with
    /// every cell addressable in `u32`.
    #[verifier::type_invariant]
    spec fn well_formed(&self) -> bool {
        &&& self.width > 0
        &&& self.height > 0
        &&& self.width * self.height <= u32::MAX
        &&& self.pixels@.len() == self.width * self.height
    }

    /// Width in texels.
    pub closed spec fn spec_width(&self) -> u32 {
        self.width
    }

    /// Height in texels.
    pub closed spec fn spec_height(&self) -> u32 {
        self.height
    }

    /// The texels, row after row.
    pub closed spec fn spec_pixels(&self) -> Seq<T> {
        self.pixels@
    }

    /// A texture from its texels, given row after row.
    pub fn from_pixels(width: u32, height: u32, pixels: Vec<T>) -> (texture: Self)
        requires
            width > 0,
            height > 0,
            width * height <= u32::MAX,
            pixels@.len() == width * height,
        ensures
            texture.spec_width() == width,
            texture.spec_height() == height,
            texture.spec_pixels() == pixels@,
    {
        Texture { width, height, pixels }
    }

    /// Width in texels.
    pub fn width(&self) -> (width: u32)
        ensures
            width == self.spec_width(),
            width > 0,
    {
        proof {
            use_type_invariant(self);
        }
        self.width
    }

    /// Height in texels.
    pub fn height(&self) -> (height: u32)
        ensures
            height == self.spec_height(),
            height > 0,
    {
        proof {
            use_type_invariant(self);
        }
        self.height
    }
}

impl<T: Copy> Texture<T> {
    /// The texel in column `x` of row `y`.
    pub fn texel(&self, x: u32, y: u32) -> (texel: T)
        requires
            x < self.spec_width(),
            y < self.spec_height(),
        ensures
            texel == self.spec_pixels()[y * self.spec_width() + x],
    {
        proof {
            use_type_invariant(self);
            assert(y * self.width + x < self.width * self.height) by (nonlinear_arith)
                requires
                    x < self.width,
                    y < self.height,
            ;
        }
        self.pixels[(y * self.width + x) as usize]
    }
}

/// What `image` decodes from the bytes of an image file whose extension is
/// `extension`, converted to 8-bit RGB: width, height and the RGB bytes, row
/// after row; `None` where it cannot decode them.
pub uninterp spec fn decoded_rgb8(extension: Seq<char>, bytes: Seq<u8>) -> Option<(u32, u32, Seq<u8>)>;

/// Decodes an image file held in memory through `image`: the format is
/// `ImageFormat::from_extension(extension)`, the image is read by
/// `load_from_memory_with_format` with the default decoding limits, as
/// `ImageReader` reads a file, and converted by `into_rgb8`. Claimed of it:
/// the result is the named `decoded_rgb8`, `None` exactly where the format is
/// unknown or decoding fails, and the RGB buffer holds at least
/// `width * height * 3` bytes (every `ImageBuffer` constructor checks this);
/// its pixels are the first `width * height * 3` of them.
#[verifier::external_body]
fn decode_rgb8(extension: &str, bytes: &[u8]) -> (result: Option<(u32, u32, Vec<u8>)>)
    ensures
        match result {
            Some((width, height, rgb)) => decoded_rgb8(extension@, bytes@) == Some(
                (width, height, rgb@),
            ) && rgb@.len() >= width * height * 3,
            None => decoded_rgb8(extension@, bytes@) is None,
        },
{
    let format = image::ImageFormat::from_extension(extension)?;
    let image = image::load_from_memory_with_format(bytes, format).ok()?.into_rgb8();
    let (width, height) = image.dimensions();
    Some((width, height, image.into_raw()))
}

/// Why an image file cannot become a texture.
#[derive(Clone, Copy, Debug, PartialEq, Eq)]
pub enum TextureError {
    /// The extension names no format that can be decoded, or the bytes are
    /// not a valid image of that format.
    Undecodable,
    /// The image has no pixels.
    Empty,
    /// The pixel count does not fit in `u32`.
    TooLarge,
}

/// The outcome of turning a decoded `width` x `height` image into a texture.
pub open spec fn texture_check(width: u32, height: u32) -> Result<(), TextureError> {
    if width == 0 || height == 0 {
        Err(TextureError::Empty)
    } else if width * height > u32::MAX {
        Err(TextureError::TooLarge)
    } else {
        Ok(())
    }
}

/// Whether `texture` holds the `width` x `height` image whose RGB bytes,
/// row after row, begin `rgb`: one texel of three bytes per pixel.
pub open spec fn texture_holds_rgb(texture: Texture<[u8; 3]>, width: u32, height: u32, rgb: Seq<u8>) -> bool {
    &&& texture.spec_width() == width
    &&& texture.spec_height() == height
    &&& texture.spec_pixels().len() == width * height
    &&& forall|i: int|
        0 <= i < width * height ==> (#[trigger] texture.spec_pixels()[i])@ == rgb.subrange(
            3 * i,
            3 * i + 3,
        )
}

/// Decodes the bytes of an image file, whose extension names its format,
/// into a texture of RGB bytes.
pub fn decode_texture(extension: &str, bytes: &[u8]) -> (result: Result<Texture<[u8; 3]>, TextureError>)
    ensures
        match decoded_rgb8(extension@, bytes@) {
            None => result == Err::<Texture<[u8; 3]>, TextureError>(TextureError::Undecodable),
            Some((width, height, rgb)) => match texture_check(width, height) {
                Err(error) => result == Err::<Texture<[u8; 3]>, TextureError>(error),
                Ok(()) => result matches Ok(texture) && texture_holds_rgb(
                    texture,
                    width,
                    height,
                    rgb,
                ),
            },
        },
{
    let (width, height, rgb) = match decode_rgb8(extension, bytes) {
        Some(decoded) => decoded,
        None => {
            return Err(TextureError::Undecodable);
        },
    };
    if width == 0 || height == 0 {
        return Err(TextureError::Empty);
    }
    let count = match width.checked_mul(height) {
        Some(count) => count,
        None => {
            return Err(TextureError::TooLarge);
        },
    };
    let count = count as usize;
    let rgb_len = rgb.len();
    assert(rgb_len >= 3 * count);
    let mut pixels: Vec<[u8; 3]> = Vec::with_capacity(count);
    let mut index: usize = 0;
    while index < count
        invariant
            index <= count,
            count == width * height,
            rgb_len == rgb@.len(),
            rgb_len >= 3 * count,
            pixels@.len() == index,
            forall|i: int|
                0 <= i < index ==> (#[trigger] pixels@[i])@ == rgb@.subrange(3 * i, 3 * i + 3),
        decreases count - index,
    {
        let texel = [rgb[3 * index], rgb[3 * index + 1], rgb[3 * index + 2]];
        assert(texel@ =~= rgb@.subrange(3 * index, 3 * index + 3));
        pixels.push(texel);
        index = index + 1;
    }
    let texture = Texture::from_pixels(width, height, pixels);
    Ok(texture)
}

} // verus!
