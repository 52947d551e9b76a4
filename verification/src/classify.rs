//! Content classification: decide whether a byte buffer is text, a known
//! image format, or generic binary, from magic-byte prefixes and UTF-8
//! validity.
use vstd::prelude::*;

verus! {

/// The content-type tag of a clipboard payload.
#[derive(Clone, Copy, PartialEq, Eq, Structural, Debug)]
pub enum ContentType {
    Text,
    ImagePng,
    ImageJpeg,
    ImageGif,
    ImageWebp,
    ImageBmp,
    Binary,
}

impl ContentType {
    /// True for the image variants.
    pub open spec fn spec_is_image(self) -> bool {
        match self {
            ContentType::ImagePng => true,
            ContentType::ImageJpeg => true,
            ContentType::ImageGif => true,
            ContentType::ImageWebp => true,
            ContentType::ImageBmp => true,
            _ => false,
        }
    }

    /// True for the image variants.
    pub fn is_image(&self) -> (r: bool)
        ensures
            r == self.spec_is_image(),
    {
        match self {
            ContentType::ImagePng => true,
            ContentType::ImageJpeg => true,
            ContentType::ImageGif => true,
            ContentType::ImageWebp => true,
            ContentType::ImageBmp => true,
            _ => false,
        }
    }

    /// The MIME-style name of this tag.
    pub open spec fn spec_name(self) -> Seq<char> {
        match self {
            ContentType::Text => "text"@,
            ContentType::ImagePng => "image/png"@,
            ContentType::ImageJpeg => "image/jpeg"@,
            ContentType::ImageGif => "image/gif"@,
            ContentType::ImageWebp => "image/webp"@,
            ContentType::ImageBmp => "image/bmp"@,
            ContentType::Binary => "binary"@,
        }
    }

    /// The MIME-style name of this tag.
    pub fn name(&self) -> (r: String)
        ensures
            r@ == self.spec_name(),
    {
        match self {
            ContentType::Text => String::from_str("text"),
            ContentType::ImagePng => String::from_str("image/png"),
            ContentType::ImageJpeg => String::from_str("image/jpeg"),
            ContentType::ImageGif => String::from_str("image/gif"),
            ContentType::ImageWebp => String::from_str("image/webp"),
            ContentType::ImageBmp => String::from_str("image/bmp"),
            ContentType::Binary => String::from_str("binary"),
        }
    }
}

/// A UTF-8 continuation byte.
pub open spec fn utf8_cont(c: u8) -> bool {
    0x80u8 <= c < 0xc0u8
}

/// The buffer encodes a well-formed UTF-8 sequence from position `i` on.
/// The byte ranges follow the shortest-form table of the UTF-8 definition:
/// overlong encodings, surrogates and code points above U+10FFFF are
/// excluded.
pub open spec fn spec_valid_utf8_from(b: Seq<u8>, i: int) -> bool
    decreases b.len() - i,
{
    if i >= b.len() {
        true
    } else {
        let c = b[i];
        if c < 0x80u8 {
            spec_valid_utf8_from(b, i + 1)
        } else if c < 0xc2u8 {
            false
        } else if c < 0xe0u8 {
            i + 1 < b.len() && utf8_cont(b[i + 1]) && spec_valid_utf8_from(b, i + 2)
        } else if c == 0xe0u8 {
            i + 2 < b.len() && 0xa0u8 <= b[i + 1] < 0xc0u8 && utf8_cont(b[i + 2])
                && spec_valid_utf8_from(b, i + 3)
        } else if c == 0xedu8 {
            i + 2 < b.len() && 0x80u8 <= b[i + 1] < 0xa0u8 && utf8_cont(b[i + 2])
                && spec_valid_utf8_from(b, i + 3)
        } else if c < 0xf0u8 {
            i + 2 < b.len() && utf8_cont(b[i + 1]) && utf8_cont(b[i + 2]) && spec_valid_utf8_from(
                b,
                i + 3,
            )
        } else if c == 0xf0u8 {
            i + 3 < b.len() && 0x90u8 <= b[i + 1] < 0xc0u8 && utf8_cont(b[i + 2]) && utf8_cont(
                b[i + 3],
            ) && spec_valid_utf8_from(b, i + 4)
        } else if c < 0xf4u8 {
            i + 3 < b.len() && utf8_cont(b[i + 1]) && utf8_cont(b[i + 2]) && utf8_cont(b[i + 3])
                && spec_valid_utf8_from(b, i + 4)
        } else if c == 0xf4u8 {
            i + 3 < b.len() && 0x80u8 <= b[i + 1] < 0x90u8 && utf8_cont(b[i + 2]) && utf8_cont(
                b[i + 3],
            ) && spec_valid_utf8_from(b, i + 4)
        } else {
            false
        }
    }
}

/// The buffer is a well-formed UTF-8 encoding.
pub open spec fn spec_valid_utf8(b: Seq<u8>) -> bool {
    spec_valid_utf8_from(b, 0)
}

/// Check UTF-8 well-formedness.
pub fn is_valid_utf8(b: &[u8]) -> (r: bool)
    ensures
        r == spec_valid_utf8(b@),
{
    let n = b.len();
    let mut i: usize = 0;
    loop
        invariant
            0 <= i <= n,
            n == b@.len(),
            spec_valid_utf8(b@) == spec_valid_utf8_from(b@, i as int),
        ensures
            i == n,
            spec_valid_utf8(b@) == spec_valid_utf8_from(b@, i as int),
        decreases n - i,
    {
        if i >= n {
            break ;
        }
        let c = b[i];
        if c < 0x80u8 {
            i = i + 1;
        } else if c < 0xc2u8 {
            return false;
        } else if c < 0xe0u8 {
            if n - i > 1 && 0x80u8 <= b[i + 1] && b[i + 1] < 0xc0u8 {
                i = i + 2;
            } else {
                return false;
            }
        } else if c == 0xe0u8 {
            if n - i > 2 && 0xa0u8 <= b[i + 1] && b[i + 1] < 0xc0u8 && 0x80u8 <= b[i + 2] && b[i
                + 2] < 0xc0u8 {
                i = i + 3;
            } else {
                return false;
            }
        } else if c == 0xedu8 {
            if n - i > 2 && 0x80u8 <= b[i + 1] && b[i + 1] < 0xa0u8 && 0x80u8 <= b[i + 2] && b[i
                + 2] < 0xc0u8 {
                i = i + 3;
            } else {
                return false;
            }
        } else if c < 0xf0u8 {
            if n - i > 2 && 0x80u8 <= b[i + 1] && b[i + 1] < 0xc0u8 && 0x80u8 <= b[i + 2] && b[i
                + 2] < 0xc0u8 {
                i = i + 3;
            } else {
                return false;
            }
        } else if c == 0xf0u8 {
            if n - i > 3 && 0x90u8 <= b[i + 1] && b[i + 1] < 0xc0u8 && 0x80u8 <= b[i + 2] && b[i
                + 2] < 0xc0u8 && 0x80u8 <= b[i + 3] && b[i + 3] < 0xc0u8 {
                i = i + 4;
            } else {
                return false;
            }
        } else if c < 0xf4u8 {
            if n - i > 3 && 0x80u8 <= b[i + 1] && b[i + 1] < 0xc0u8 && 0x80u8 <= b[i + 2] && b[i
                + 2] < 0xc0u8 && 0x80u8 <= b[i + 3] && b[i + 3] < 0xc0u8 {
                i = i + 4;
            } else {
                return false;
            }
        } else if c == 0xf4u8 {
            if n - i > 3 && 0x80u8 <= b[i + 1] && b[i + 1] < 0x90u8 && 0x80u8 <= b[i + 2] && b[i
                + 2] < 0xc0u8 && 0x80u8 <= b[i + 3] && b[i + 3] < 0xc0u8 {
                i = i + 4;
            } else {
                return false;
            }
        } else {
            return false;
        }
    }
    true
}

/// Classification of a byte buffer, decided in order:
/// short buffers are text, then magic-byte image prefixes, then UTF-8
/// validity, and generic binary last.
pub open spec fn spec_classify(b: Seq<u8>) -> ContentType {
    if b.len() < 4 {
        ContentType::Text
    } else if b[0] == 0x89u8 && b[1] == 0x50u8 && b[2] == 0x4eu8 && b[3] == 0x47u8 {
        ContentType::ImagePng
    } else if b[0] == 0xffu8 && b[1] == 0xd8u8 && b[2] == 0xffu8 {
        ContentType::ImageJpeg
    } else if b[0] == 0x47u8 && b[1] == 0x49u8 && b[2] == 0x46u8 {
        ContentType::ImageGif
    } else if b[0] == 0x42u8 && b[1] == 0x4du8 {
        ContentType::ImageBmp
    } else if b.len() >= 12 && b[8] == 0x57u8 && b[9] == 0x45u8 && b[10] == 0x42u8 && b[11]
        == 0x50u8 {
        ContentType::ImageWebp
    } else if spec_valid_utf8(b) {
        ContentType::Text
    } else {
        ContentType::Binary
    }
}

/// Classify a byte buffer.
pub fn classify(b: &[u8]) -> (r: ContentType)
    ensures
        r == spec_classify(b@),
{
    let n = b.len();
    if n < 4 {
        ContentType::Text
    } else if b[0] == 0x89u8 && b[1] == 0x50u8 && b[2] == 0x4eu8 && b[3] == 0x47u8 {
        ContentType::ImagePng
    } else if b[0] == 0xffu8 && b[1] == 0xd8u8 && b[2] == 0xffu8 {
        ContentType::ImageJpeg
    } else if b[0] == 0x47u8 && b[1] == 0x49u8 && b[2] == 0x46u8 {
        ContentType::ImageGif
    } else if b[0] == 0x42u8 && b[1] == 0x4du8 {
        ContentType::ImageBmp
    } else if n >= 12 && b[8] == 0x57u8 && b[9] == 0x45u8 && b[10] == 0x42u8 && b[11] == 0x50u8 {
        ContentType::ImageWebp
    } else if is_valid_utf8(b) {
        ContentType::Text
    } else {
        ContentType::Binary
    }
}

/// Classify a byte buffer and return the MIME-style name of the result.
/// Total: every buffer gets exactly the tag that `spec_classify` assigns.
pub fn detect_content_type(bytes: &[u8]) -> (r: String)
    ensures
        r@ == spec_classify(bytes@).spec_name(),
{
    classify(bytes).name()
}

} // verus!
