//! Latent textures and their binary file format.
//!
//! A latent file is the 8-byte magic `AIRTLAT1`, then width, height and
//! channel count as little-endian `u32`s, then `width * height * channels`
//! little-endian `f32` values, texel after texel, channels innermost.
//! Values are held by their IEEE 754 bit patterns (`f32::to_bits`).
use vstd::prelude::*;
use crate::float_bits::{f32_bits_finite, is_finite_bits};

verus! {

/// Size in bytes of the header: magic, width, height, channel count.
pub const HEADER_SIZE: usize = 20;

/// The magic bytes `AIRTLAT1` that open every latent file.
pub const MAGIC: [u8; 8] = [0x41, 0x49, 0x52, 0x54, 0x4c, 0x41, 0x54, 0x31];

/// The magic bytes as a sequence.
pub open spec fn magic_bytes() -> Seq<u8> {
    seq![0x41u8, 0x49u8, 0x52u8, 0x54u8, 0x4cu8, 0x41u8, 0x54u8, 0x31u8]
}

/// The little-endian `u32` stored in the four bytes of `bytes` from `at`.
pub open spec fn le_u32_at(bytes: Seq<u8>, at: int) -> u32 {
    (bytes[at] as int + 256 * bytes[at + 1] + 65536 * bytes[at + 2] + 16777216 * bytes[at
        + 3]) as u32
}

/// The four little-endian bytes of `value`.
pub open spec fn u32_le_bytes(value: u32) -> Seq<u8> {
    seq![
        (value % 256) as u8,
        ((value / 256) % 256) as u8,
        ((value / 65536) % 256) as u8,
        ((value / 16777216) % 256) as u8,
    ]
}

/// What a latent texture holds.
pub struct LatentData {
    pub width: u32,
    pub height: u32,
    pub channels: usize,
    /// `f32` bit patterns, texel after texel, channels innermost.
    pub values: Seq<u32>,
}

/// No dimension is zero and there is one value per texel and channel.
pub open spec fn latent_well_formed(data: LatentData) -> bool {
    &&& data.width > 0
    &&& data.height > 0
    &&& data.channels > 0
    &&& data.values.len() == data.width * data.height * data.channels
}

/// Why bytes are not a latent file.
#[derive(Clone, Copy, Debug, PartialEq, Eq)]
pub enum LatentFormatError {
    /// Shorter than the header, or not opened by the magic bytes.
    InvalidHeader,
    /// Width, height or channel count is zero.
    ZeroDimension,
    /// The size the header announces does not fit in `usize`.
    TooLarge,
    /// The payload is not as long as the header announces.
    PayloadLength,
    /// A value is infinite or NaN.
    NonFinite,
}

/// Number of values the header of `bytes` announces.
pub open spec fn announced_count(bytes: Seq<u8>) -> int {
    le_u32_at(bytes, 8) * le_u32_at(bytes, 12) * le_u32_at(bytes, 16)
}

/// The values in the payload of `bytes`.
pub open spec fn payload_values(bytes: Seq<u8>) -> Seq<u32> {
    Seq::new(announced_count(bytes) as nat, |i: int| le_u32_at(bytes, 20 + 4 * i))
}

/// What `bytes` decode to as a latent file.
pub open spec fn parse_latent(bytes: Seq<u8>) -> Result<LatentData, LatentFormatError> {
    if bytes.len() < 20 || bytes.subrange(0, 8) != magic_bytes() {
        Err(LatentFormatError::InvalidHeader)
    } else if le_u32_at(bytes, 8) == 0 || le_u32_at(bytes, 12) == 0 || le_u32_at(bytes, 16) == 0 {
        Err(LatentFormatError::ZeroDimension)
    } else if 20 + 4 * announced_count(bytes) > usize::MAX {
        Err(LatentFormatError::TooLarge)
    } else if bytes.len() != 20 + 4 * announced_count(bytes) {
        Err(LatentFormatError::PayloadLength)
    } else if exists|i: int|
        0 <= i < announced_count(bytes) && !f32_bits_finite(#[trigger] payload_values(bytes)[i]) {
        Err(LatentFormatError::NonFinite)
    } else {
        Ok(
            LatentData {
                width: le_u32_at(bytes, 8),
                height: le_u32_at(bytes, 12),
                channels: le_u32_at(bytes, 16) as usize,
                values: payload_values(bytes),
            },
        )
    }
}

/// The little-endian bytes of the values, one after another.
pub open spec fn values_bytes(values: Seq<u32>) -> Seq<u8> {
    Seq::new(4 * values.len(), |i: int| u32_le_bytes(values[i / 4])[i % 4])
}

/// The header of a latent file; the channel count is stored as `u32`.
pub open spec fn latent_header(data: LatentData) -> Seq<u8> {
    magic_bytes() + u32_le_bytes(data.width) + u32_le_bytes(data.height) + u32_le_bytes(
        data.channels as u32,
    )
}

/// The bytes of the latent file that stores `data`.
pub open spec fn latent_file(data: LatentData) -> Seq<u8> {
    latent_header(data) + values_bytes(data.values)
}

/// The little-endian bytes of a `u32` read back give the `u32`.
pub proof fn lemma_u32_le_round_trip(value: u32)
    ensures
        le_u32_at(u32_le_bytes(value), 0) == value,
{
    assert(value % 256 + 256 * ((value / 256) % 256) + 65536 * ((value / 65536) % 256) + 16777216
        * ((value / 16777216) % 256) == value) by (bit_vector);
}

/// Four bytes read as a little-endian `u32` and written back are the same
/// four bytes.
pub proof fn lemma_le_bytes_round_trip(bytes: Seq<u8>, at: int)
    requires
        0 <= at,
        at + 4 <= bytes.len(),
    ensures
        u32_le_bytes(le_u32_at(bytes, at)) == bytes.subrange(at, at + 4),
{
    let b0 = bytes[at] as u32;
    let b1 = bytes[at + 1] as u32;
    let b2 = bytes[at + 2] as u32;
    let b3 = bytes[at + 3] as u32;
    let v = (b0 + 256 * b1 + 65536 * b2 + 16777216 * b3) as u32;
    assert({
        &&& v % 256 == b0
        &&& (v / 256) % 256 == b1
        &&& (v / 65536) % 256 == b2
        &&& (v / 16777216) % 256 == b3
    }) by (bit_vector)
        requires
            b0 < 256,
            b1 < 256,
            b2 < 256,
            b3 < 256,
            v == b0 + 256 * b1 + 65536 * b2 + 16777216 * b3,
    ;
    assert(u32_le_bytes(v) =~= bytes.subrange(at, at + 4));
}

/// Reading a latent file gives back the texture it was written from, for
/// every texture whose values are finite and whose channel count fits the
/// header's `u32`.
pub proof fn lemma_parse_written_file(data: LatentData)
    requires
        latent_well_formed(data),
        data.channels <= u32::MAX,
        20 + 4 * data.values.len() <= usize::MAX,
        forall|i: int| 0 <= i < data.values.len() ==> f32_bits_finite(#[trigger] data.values[i]),
    ensures
        parse_latent(latent_file(data)) == Ok::<LatentData, LatentFormatError>(data),
{
    let bytes = latent_file(data);
    let header = latent_header(data);
    assert(header.len() == 20);
    assert(bytes.subrange(0, 8) =~= magic_bytes());
    lemma_u32_le_round_trip(data.width);
    lemma_u32_le_round_trip(data.height);
    lemma_u32_le_round_trip(data.channels as u32);
    assert(u32_le_bytes(data.width) =~= bytes.subrange(8, 12));
    assert(u32_le_bytes(data.height) =~= bytes.subrange(12, 16));
    assert(u32_le_bytes(data.channels as u32) =~= bytes.subrange(16, 20));
    assert(le_u32_at(bytes, 8) == le_u32_at(u32_le_bytes(data.width), 0));
    assert(le_u32_at(bytes, 12) == le_u32_at(u32_le_bytes(data.height), 0));
    assert(le_u32_at(bytes, 16) == le_u32_at(u32_le_bytes(data.channels as u32), 0));
    assert(announced_count(bytes) == data.values.len());
    let values = payload_values(bytes);
    assert forall|i: int| 0 <= i < data.values.len() implies values[i] == data.values[i] by {
        let at = 20 + 4 * i;
        lemma_u32_le_round_trip(data.values[i]);
        let vb = values_bytes(data.values);
        assert(vb[4 * i] == u32_le_bytes(data.values[i])[0]);
        assert(vb[4 * i + 1] == u32_le_bytes(data.values[i])[1]);
        assert(vb[4 * i + 2] == u32_le_bytes(data.values[i])[2]);
        assert(vb[4 * i + 3] == u32_le_bytes(data.values[i])[3]);
        assert(le_u32_at(bytes, at) == le_u32_at(u32_le_bytes(data.values[i]), 0));
    }
    assert(values =~= data.values);
}

/// A file that reads as a latent texture is exactly the file that texture
/// writes.
pub proof fn lemma_written_file_of_parsed(bytes: Seq<u8>)
    requires
        parse_latent(bytes) is Ok,
    ensures
        latent_file(parse_latent(bytes)->Ok_0) == bytes,
{
    let data = parse_latent(bytes)->Ok_0;
    lemma_le_bytes_round_trip(bytes, 8);
    lemma_le_bytes_round_trip(bytes, 12);
    lemma_le_bytes_round_trip(bytes, 16);
    assert(data.channels as u32 == le_u32_at(bytes, 16));
    let file = latent_file(data);
    assert forall|j: int| 0 <= j < bytes.len() implies file[j] == bytes[j] by {
        if j < 8 {
            assert(bytes.subrange(0, 8)[j] == bytes[j]);
        } else if j < 12 {
            assert(bytes.subrange(8, 12)[j - 8] == bytes[j]);
        } else if j < 16 {
            assert(bytes.subrange(12, 16)[j - 12] == bytes[j]);
        } else if j < 20 {
            assert(bytes.subrange(16, 20)[j - 16] == bytes[j]);
        } else {
            let k = j - 20;
            let i = k / 4;
            assert(0 <= i < announced_count(bytes));
            lemma_le_bytes_round_trip(bytes, 20 + 4 * i);
            assert(bytes.subrange(20 + 4 * i, 20 + 4 * i + 4)[k % 4] == bytes[20 + 4 * i + k % 4]);
        }
    }
    assert(file =~= bytes);
}


/// Reads the little-endian `u32` stored at `at`.
pub fn read_u32_le(bytes: &[u8], at: usize) -> (value: u32)
    requires
        at + 4 <= bytes@.len(),
    ensures
        value == le_u32_at(bytes@, at as int),
{
    let b0 = bytes[at] as u32;
    let b1 = bytes[at + 1] as u32;
    let b2 = bytes[at + 2] as u32;
    let b3 = bytes[at + 3] as u32;
    let value = b0 | (b1 << 8u32) | (b2 << 16u32) | (b3 << 24u32);
    assert(value == b0 + 256 * b1 + 65536 * b2 + 16777216 * b3) by (bit_vector)
        requires
            b0 < 256,
            b1 < 256,
            b2 < 256,
            b3 < 256,
            value == b0 | (b1 << 8u32) | (b2 << 16u32) | (b3 << 24u32),
    ;
    value
}

/// Appends the four little-endian bytes of `value`.
pub fn push_u32_le(bytes: &mut Vec<u8>, value: u32)
    ensures
        final(bytes)@ == old(bytes)@ + u32_le_bytes(value),
{
    let b0 = (value & 0xff) as u8;
    let b1 = ((value >> 8u32) & 0xff) as u8;
    let b2 = ((value >> 16u32) & 0xff) as u8;
    let b3 = ((value >> 24u32) & 0xff) as u8;
    assert({
        &&& value & 0xff == value % 256
        &&& (value >> 8u32) & 0xff == (value / 256) % 256
        &&& (value >> 16u32) & 0xff == (value / 65536) % 256
        &&& (value >> 24u32) & 0xff == (value / 16777216) % 256
    }) by (bit_vector);
    bytes.push(b0);
    bytes.push(b1);
    bytes.push(b2);
    bytes.push(b3);
    assert(final(bytes)@ =~= old(bytes)@ + u32_le_bytes(value));
}

/// A texture of latent vectors: `channels` values for each of its
/// `width` x `height` texels.
#[derive(Debug)]
pub struct LatentTexture {
    width: u32,
    height: u32,
    channels: usize,
    values: Vec<u32>,
}

impl View for LatentTexture {
    type V = LatentData;

    closed spec fn view(&self) -> LatentData {
        LatentData {
            width: self.width,
            height: self.height,
            channels: self.channels,
            values: self.values@,
        }
    }
}

impl LatentTexture {
    #[verifier::type_invariant]
    spec fn well_formed(&self) -> bool {
        latent_well_formed(self@)
    }

    /// A texture from its values (`f32` bit patterns), texel after texel with
    /// channels innermost.
    pub fn from_values(width: u32, height: u32, channels: usize, values: Vec<u32>) -> (texture: Self)
        requires
            width > 0,
            height > 0,
            channels > 0,
            values@.len() == width * height * channels,
        ensures
            texture@ == (LatentData { width, height, channels, values: values@ }),
    {
        LatentTexture { width, height, channels, values }
    }

    /// Number of values per texel.
    pub fn channels(&self) -> (channels: usize)
        ensures
            channels == self@.channels,
    {
        self.channels
    }

    /// Width in texels.
    pub fn width(&self) -> (width: u32)
        ensures
            width == self@.width,
    {
        self.width
    }

    /// Height in texels.
    pub fn height(&self) -> (height: u32)
        ensures
            height == self@.height,
    {
        self.height
    }

    /// Bit pattern of value `channel` of the texel in column `x` of row `y`.
    pub fn value(&self, x: u32, y: u32, channel: usize) -> (value: u32)
        requires
            x < self@.width,
            y < self@.height,
            channel < self@.channels,
            y * self@.width + x <= u32::MAX,
        ensures
            value == self@.values[(y * self@.width + x) * self@.channels + channel],
    {
        let total = self.values.len();
        proof {
            use_type_invariant(self);
            let texel = y * self.width + x;
            assert(texel < self.width * self.height) by (nonlinear_arith)
                requires
                    x < self.width,
                    y < self.height,
                    texel == y * self.width + x,
            ;
            assert(texel * self.channels + channel < self.width * self.height * self.channels)
                by (nonlinear_arith)
                requires
                    texel < self.width * self.height,
                    channel < self.channels,
            ;
            assert(texel * self.channels + channel < total);
        }
        self.values[((y * self.width + x) as usize) * self.channels + channel]
    }

    /// Decodes a latent file.
    pub fn parse(bytes: &[u8]) -> (result: Result<Self, LatentFormatError>)
        ensures
            match parse_latent(bytes@) {
                Ok(data) => result matches Ok(texture) && texture@ == data,
                Err(e) => result == Err::<Self, LatentFormatError>(e),
            },
    {
        if bytes.len() < HEADER_SIZE || !starts_with_magic(bytes) {
            return Err(LatentFormatError::InvalidHeader);
        }
        let width = read_u32_le(bytes, 8);
        let height = read_u32_le(bytes, 12);
        let channels = read_u32_le(bytes, 16) as usize;
        if width == 0 || height == 0 || channels == 0 {
            return Err(LatentFormatError::ZeroDimension);
        }
        let ghost count = announced_count(bytes@);
        let value_count = match (width as usize).checked_mul(height as usize) {
            Some(texels) => match texels.checked_mul(channels) {
                Some(value_count) => value_count,
                None => {
                    assert(count * 4 + 20 > usize::MAX);
                    return Err(LatentFormatError::TooLarge);
                },
            },
            None => {
                assert(count >= width * height) by (nonlinear_arith)
                    requires
                        count == width * height * channels,
                        channels >= 1,
                        width * height >= 0,
                ;
                return Err(LatentFormatError::TooLarge);
            },
        };
        let payload_size = match value_count.checked_mul(4) {
            Some(payload_size) => payload_size,
            None => {
                return Err(LatentFormatError::TooLarge);
            },
        };
        let expected_size = match HEADER_SIZE.checked_add(payload_size) {
            Some(expected_size) => expected_size,
            None => {
                return Err(LatentFormatError::TooLarge);
            },
        };
        if bytes.len() != expected_size {
            return Err(LatentFormatError::PayloadLength);
        }
        assert(count >= 0) by (nonlinear_arith)
            requires
                count == width * height * channels,
        ;
        let mut values: Vec<u32> = Vec::with_capacity(value_count);
        let mut index: usize = 0;
        while index < value_count
            invariant
                index <= value_count,
                value_count == count,
                count >= 0,
                count == announced_count(bytes@),
                payload_values(bytes@).len() == count,
                bytes@.len() == 20 + 4 * count,
                20 + 4 * count <= usize::MAX,
                values@ == payload_values(bytes@).take(index as int),
            decreases value_count - index,
        {
            let value = read_u32_le(bytes, HEADER_SIZE + 4 * index);
            assert(value == payload_values(bytes@)[index as int]);
            values.push(value);
            index = index + 1;
            assert(values@ =~= payload_values(bytes@).take(index as int));
        }
        assert(values@ =~= payload_values(bytes@));
        let mut index: usize = 0;
        while index < value_count
            invariant
                index <= value_count,
                values@.len() == value_count,
                values@ == payload_values(bytes@),
                value_count == announced_count(bytes@),
                bytes@.len() == 20 + 4 * announced_count(bytes@),
                20 + 4 * announced_count(bytes@) <= usize::MAX,
                bytes@.subrange(0, 8) == magic_bytes(),
                le_u32_at(bytes@, 8) != 0 && le_u32_at(bytes@, 12) != 0 && le_u32_at(bytes@, 16) != 0,
                forall|i: int| 0 <= i < index ==> f32_bits_finite(#[trigger] values@[i]),
            decreases value_count - index,
        {
            if !is_finite_bits(values[index]) {
                assert(!f32_bits_finite(payload_values(bytes@)[index as int]));
                return Err(LatentFormatError::NonFinite);
            }
            index = index + 1;
        }
        Ok(LatentTexture::from_values(width, height, channels, values))
    }

    /// Encodes the texture as a latent file.
    pub fn to_bytes(&self) -> (bytes: Vec<u8>)
        requires
            20 + 4 * self@.values.len() <= usize::MAX,
        ensures
            bytes@ == latent_file(self@),
    {
        let mut bytes: Vec<u8> = Vec::with_capacity(HEADER_SIZE + self.values.len() * 4);
        let mut index: usize = 0;
        while index < 8
            invariant
                index <= 8,
                bytes@ == magic_bytes().take(index as int),
                MAGIC@ == magic_bytes(),
            decreases 8 - index,
        {
            bytes.push(MAGIC[index]);
            index = index + 1;
            assert(bytes@ =~= magic_bytes().take(index as int));
        }
        assert(bytes@ =~= magic_bytes());
        push_u32_le(&mut bytes, self.width);
        push_u32_le(&mut bytes, self.height);
        push_u32_le(&mut bytes, self.channels as u32);
        let ghost header = bytes@;
        assert(header == latent_header(self@));
        let mut index: usize = 0;
        while index < self.values.len()
            invariant
                index <= self.values@.len(),
                header.len() == 20,
                bytes@ == header + values_bytes(self.values@.take(index as int)),
            decreases self.values@.len() - index,
        {
            let ghost before = bytes@;
            push_u32_le(&mut bytes, self.values[index]);
            proof {
                let taken = self.values@.take(index as int);
                let next = self.values@.take(index + 1);
                assert(values_bytes(next) =~= values_bytes(taken) + u32_le_bytes(self.values@[index as int]))
                    by {
                    assert forall|k: int| 0 <= k < 4 * index implies values_bytes(next)[k]
                        == values_bytes(taken)[k] by {
                        assert(k / 4 < index);
                    }
                }
            }
            index = index + 1;
        }
        assert(self.values@.take(self.values@.len() as int) =~= self.values@);
        bytes
    }
}

/// Whether `bytes` opens with the magic bytes.
fn starts_with_magic(bytes: &[u8]) -> (matches: bool)
    requires
        bytes@.len() >= 8,
    ensures
        matches == (bytes@.subrange(0, 8) == magic_bytes()),
{
    let mut index: usize = 0;
    while index < 8
        invariant
            index <= 8,
            bytes@.len() >= 8,
            MAGIC@ == magic_bytes(),
            forall|i: int| 0 <= i < index ==> bytes@[i] == magic_bytes()[i],
        decreases 8 - index,
    {
        if bytes[index] != MAGIC[index] {
            assert(bytes@.subrange(0, 8)[index as int] != magic_bytes()[index as int]);
            return false;
        }
        index = index + 1;
    }
    assert(bytes@.subrange(0, 8) =~= magic_bytes());
    true
}

} // verus!
