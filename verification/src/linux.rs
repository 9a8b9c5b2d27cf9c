//! The header of an arm64 Linux kernel Image.
use crate::bytes::{get_u32, get_u64, le_value};
use vstd::prelude::*;

verus! {

/// "ARM\x64", little-endian.
pub const ARM64_IMAGE_MAGIC: u32 = 0x644d5241;

/// Bytes of the header.
pub const IMAGE_HEADER_LEN: usize = 64;

/// The header at the start of an Image: two words of code, the load offset
/// from a 2 MiB boundary, the size the kernel occupies, its flags, three
/// reserved words, the magic number and the PE/COFF offset; all little-endian.
#[derive(Debug, Clone, Copy, PartialEq, Eq)]
pub struct ImageHeader {
    pub code0: u32,
    pub code1: u32,
    pub text_offset: u64,
    pub image_size: u64,
    pub flags: u64,
    pub res2: u64,
    pub res3: u64,
    pub res4: u64,
    pub magic: u32,
    pub res5: u32,
}

/// Why an Image is refused.
#[derive(Debug, Clone, Copy, PartialEq, Eq)]
pub enum ImageError {
    /// Fewer than 64 bytes.
    TooShort,
    /// The magic number is not "ARM\x64".
    BadMagic(u32),
}

/// The little-endian value of the `n` bytes at `off`.
pub open spec fn field(b: Seq<u8>, off: int, n: int) -> nat {
    le_value(b.subrange(off, off + n))
}

/// The header that the first 64 bytes of `b` hold.
pub open spec fn header_spec(b: Seq<u8>) -> ImageHeader {
    ImageHeader {
        code0: field(b, 0, 4) as u32,
        code1: field(b, 4, 4) as u32,
        text_offset: field(b, 8, 8) as u64,
        image_size: field(b, 16, 8) as u64,
        flags: field(b, 24, 8) as u64,
        res2: field(b, 32, 8) as u64,
        res3: field(b, 40, 8) as u64,
        res4: field(b, 48, 8) as u64,
        magic: field(b, 56, 4) as u32,
        res5: field(b, 60, 4) as u32,
    }
}

/// Reads the header of `image` and checks its magic number.
pub fn parse_image_header(image: &[u8]) -> (r: Result<ImageHeader, ImageError>)
    ensures
        image@.len() < IMAGE_HEADER_LEN ==> r == Err::<ImageHeader, ImageError>(ImageError::TooShort),
        image@.len() >= IMAGE_HEADER_LEN ==> {
            let h = header_spec(image@);
            &&& h.magic == ARM64_IMAGE_MAGIC ==> r == Ok::<ImageHeader, ImageError>(h)
            &&& h.magic != ARM64_IMAGE_MAGIC ==> r == Err::<ImageHeader, ImageError>(
                ImageError::BadMagic(h.magic),
            )
        },
{
    if image.len() < IMAGE_HEADER_LEN {
        return Err(ImageError::TooShort);
    }
    let h = ImageHeader {
        code0: get_u32(image, 0),
        code1: get_u32(image, 4),
        text_offset: get_u64(image, 8),
        image_size: get_u64(image, 16),
        flags: get_u64(image, 24),
        res2: get_u64(image, 32),
        res3: get_u64(image, 40),
        res4: get_u64(image, 48),
        magic: get_u32(image, 56),
        res5: get_u32(image, 60),
    };
    if h.magic != ARM64_IMAGE_MAGIC {
        return Err(ImageError::BadMagic(h.magic));
    }
    Ok(h)
}

} // verus!
