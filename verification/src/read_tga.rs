//! Textures, and how one is taken out of an image file.

use embedded_graphics::pixelcolor::Rgb888;
use tinytga::Tga;
use vstd::prelude::*;

verus! {

/// Why `tinytga` could not read an image.
#[verifier::external_type_specification]
#[verifier::external_body]
pub struct ExParseError(tinytga::ParseError);

/// A texture: the bytes of an image, row after row, and the number of
/// texels in a row.
#[derive(Debug)]
pub struct Texture {
    pub data: Vec<u8>,
    pub width: usize,
}

/// Why a texture could not be loaded.
#[derive(Debug, Clone, Copy, PartialEq, Eq, Structural)]
pub enum TextureError {
    /// The bytes are no image that the decoder reads.
    Malformed,
}

/// The 18 bytes that close a file with a footer: `TRUEVISION-XFILE.` and a
/// zero byte.
pub open spec fn footer_signature() -> Seq<u8> {
    seq![84u8, 82, 85, 69, 86, 73, 83, 73, 79, 78, 45, 88, 70, 73, 76, 69, 46, 0]
}

/// The number that the four bytes from the place `at` on write, lowest byte
/// first.
pub open spec fn offset_at(data: Seq<u8>, at: int) -> int {
    data[at] + 256 * data[at + 1] + 65536 * data[at + 2] + 16777216 * data[at + 3]
}

/// Whether the footer of an image file, if the file has one, points into the
/// file. A file has a footer where its last 26 bytes are two offsets and the
/// signature; the footer points into the file where neither offset is greater
/// than the length of the file.
pub open spec fn footer_fits(data: Seq<u8>) -> bool {
    let n = data.len() as int;
    ||| n < 26
    ||| data.subrange(n - 18, n) != footer_signature()
    ||| offset_at(data, n - 26) <= n && offset_at(data, n - 22) <= n
}

fn signature_byte(i: usize) -> (b: u8)
    requires
        i < 18,
    ensures
        b == footer_signature()[i as int],
{
    if i == 0 {
        84
    } else if i == 1 {
        82
    } else if i == 2 {
        85
    } else if i == 3 {
        69
    } else if i == 4 {
        86
    } else if i == 5 {
        73
    } else if i == 6 {
        83
    } else if i == 7 {
        73
    } else if i == 8 {
        79
    } else if i == 9 {
        78
    } else if i == 10 {
        45
    } else if i == 11 {
        88
    } else if i == 12 {
        70
    } else if i == 13 {
        73
    } else if i == 14 {
        76
    } else if i == 15 {
        69
    } else if i == 16 {
        46
    } else {
        0
    }
}

fn read_offset(data: &[u8], at: usize) -> (offset: u64)
    requires
        at + 4 <= data@.len(),
    ensures
        offset == offset_at(data@, at as int),
{
    (data[at] as u64) + 256 * (data[at + 1] as u64) + 65536 * (data[at + 2] as u64) + 16777216 * (
    data[at + 3] as u64)
}

/// Whether the footer of an image file, if the file has one, points into the
/// file.
pub fn check_footer(data: &[u8]) -> (ok: bool)
    ensures
        ok == footer_fits(data@),
{
    let n = data.len();
    if n < 26 {
        return true;
    }
    let ghost tail = data@.subrange(n - 18, n as int);
    let mut i: usize = 0;
    while i < 18
        invariant
            i <= 18,
            26 <= n == data@.len(),
            tail == data@.subrange(n - 18, n as int),
            forall|k: int| 0 <= k < i ==> tail[k] == footer_signature()[k],
        decreases 18 - i,
    {
        if data[n - 18 + i] != signature_byte(i) {
            assert(tail[i as int] != footer_signature()[i as int]);
            return true;
        }
        i += 1;
    }
    assert(tail =~= footer_signature());
    let extension = read_offset(data, n - 26);
    let developer = read_offset(data, n - 22);
    extension <= n as u64 && developer <= n as u64
}

/// What `tinytga` makes of the bytes of an image file: the image data and
/// the width of the image, or nothing where it reports an error.
pub uninterp spec fn tga_image(data: Seq<u8>) -> Option<(Seq<u8>, usize)>;

/// `tinytga::Tga::<Rgb888>::from_slice`, and of the image that it reads
/// `RawTga::image_data` and the width of `RawTga::size`: what the decoder
/// makes of the bytes, which is `tga_image` of them. The decoder subtracts the
/// offsets of a footer from the length of the file, so a footer that points
/// past the end of the file is left out.
#[verifier::external_body]
fn decode_tga(data: &[u8]) -> (decoded: Result<(Vec<u8>, usize), tinytga::ParseError>)
    requires
        footer_fits(data@),
    ensures
        match tga_image(data@) {
            Some((bytes, width)) => decoded matches Ok(image) && image.0@ == bytes && image.1
                == width,
            None => decoded is Err,
        },
{
    match Tga::<Rgb888>::from_slice(data) {
        Ok(tga) => Ok((tga.as_raw().image_data().to_vec(), tga.as_raw().size().width as usize)),
        Err(e) => Err(e),
    }
}

/// The texture that the bytes of an image file hold. A file whose footer
/// points past its end is no image, and neither is one that the decoder
/// reports an error on.
pub fn read_tga(data: &[u8]) -> (loaded: Result<Texture, TextureError>)
    ensures
        !footer_fits(data@) ==> (loaded matches Err(e) && e == TextureError::Malformed),
        footer_fits(data@) ==> (match tga_image(data@) {
            Some((bytes, width)) => loaded matches Ok(texture) && texture.data@ == bytes
                && texture.width == width,
            None => loaded matches Err(e) && e == TextureError::Malformed,
        }),
{
    if !check_footer(data) {
        return Err(TextureError::Malformed);
    }
    match decode_tga(data) {
        Ok((map, width)) => Ok(Texture { data: map, width }),
        Err(_) => Err(TextureError::Malformed),
    }
}

/// The texel at column `u` of row `v` of a texture whose rows hold `width`
/// texels: the byte at the place `v * width + u`. A negative coordinate
/// counts as zero, and a place outside the texture reads as zero.
pub open spec fn texel_at(data: Seq<u8>, width: int, u: int, v: int) -> u8 {
    let column = if u < 0 {
        0
    } else {
        u
    };
    let row = if v < 0 {
        0
    } else {
        v
    };
    if row * width + column < data.len() {
        data[row * width + column]
    } else {
        0
    }
}

impl Texture {
    /// The texel at column `u` of row `v`.
    pub fn texel(&self, u: i32, v: i32) -> (value: u8)
        ensures
            value == texel_at(self.data@, self.width as int, u as int, v as int),
    {
        let column: u128 = if u < 0 {
            0
        } else {
            u as u128
        };
        let row: u128 = if v < 0 {
            0
        } else {
            v as u128
        };
        assert(row * self.width <= 0x8000_0000 * 0x1_0000_0000_0000_0000) by (nonlinear_arith)
            requires
                0 <= row <= 0x8000_0000,
                0 <= self.width <= 0x1_0000_0000_0000_0000,
        ;
        let place = row * (self.width as u128) + column;
        if place < self.data.len() as u128 {
            self.data[place as usize]
        } else {
            0
        }
    }
}

} // verus!
