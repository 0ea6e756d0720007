//! Synthesized posters and stills: flat tonal fills, one tone per image path, so no image
//! leaves the machine and snapshots stay deterministic.
use vstd::prelude::*;
use vstd::string::*;
use vstd::utf8::encode_utf8;

verus! {

/// The TMDB image sizes the screens ask for.
#[derive(Clone, Copy, Debug, PartialEq, Eq, Structural)]
pub enum ImageSize {
    /// Posters.
    W342,
    /// Stills.
    W300,
    /// The details backdrop poster.
    W500,
}

/// An RGBA image, row by row.
#[derive(Clone, Debug, PartialEq, Eq)]
pub struct Rgba {
    pub width: u32,
    pub height: u32,
    pub pixels: Vec<u8>,
}

/// The pixel size of each image size.
pub open spec fn dimensions(size: ImageSize) -> (u32, u32) {
    match size {
        ImageSize::W342 => (160, 240),
        ImageSize::W300 => (224, 126),
        ImageSize::W500 => (280, 420),
    }
}

/// 32-bit FNV-1a over `bytes`.
pub open spec fn fnv1a(bytes: Seq<u8>) -> u32
    decreases bytes.len(),
{
    if bytes.len() == 0 {
        0x811c_9dc5
    } else {
        (fnv1a(bytes.drop_last()) ^ (bytes.last() as u32)).wrapping_mul(0x0100_0193)
    }
}

/// The fill tone of a path: `0x2a` plus its hash modulo `0x50`.
pub open spec fn tone_of(path: Seq<char>) -> u8 {
    (0x2a + fnv1a(encode_utf8(path)) % 0x50) as u8
}

/// Byte `i` of the image: the tone, `0x14` darker in the lower third, opaque.
pub open spec fn synthesized_byte(width: int, height: int, tone: u8, i: int) -> u8 {
    let y = i / (4 * width);
    if i % 4 == 3 {
        0xFF
    } else if y * 3 >= height * 2 {
        (tone - 0x14) as u8
    } else {
        tone
    }
}

proof fn lemma_row_of(i: int, y: int, width: int)
    requires
        0 <= y,
        width > 0,
        y * 4 * width <= i < (y + 1) * 4 * width,
    ensures
        i / (4 * width) == y,
{
    assert(y * 4 * width == y * (4 * width) && (y + 1) * 4 * width == y * (4 * width) + 4 * width) by (nonlinear_arith);
    vstd::arithmetic::div_mod::lemma_fundamental_div_mod_converse(i, 4 * width, y, i - y * (4 * width));
}

/// A flat fill with a darker lower third, its tone picked from the path's FNV-1a hash.
pub fn synthesize(path: &str, size: ImageSize) -> (r: Rgba)
    ensures
        (r.width, r.height) == dimensions(size),
        r.pixels@.len() == r.width * r.height * 4,
        forall|i: int| 0 <= i < r.pixels@.len() ==> #[trigger] r.pixels@[i] == synthesized_byte(r.width as int, r.height as int, tone_of(path@), i),
{
    let (width, height): (u32, u32) = match size {
        ImageSize::W342 => (160, 240),
        ImageSize::W300 => (224, 126),
        ImageSize::W500 => (280, 420),
    };
    let bytes = path.as_bytes_vec();
    let mut hash: u32 = 0x811c_9dc5;
    let mut k: usize = 0;
    while k < bytes.len()
        invariant
            k <= bytes@.len(),
            hash == fnv1a(bytes@.take(k as int)),
        decreases bytes@.len() - k,
    {
        proof {
            assert(bytes@.take(k + 1).drop_last() =~= bytes@.take(k as int));
        }
        hash = (hash ^ (bytes[k] as u32)).wrapping_mul(0x0100_0193);
        k = k + 1;
    }
    assert(bytes@.take(bytes@.len() as int) =~= bytes@);
    let tone: u8 = 0x2a + (hash % 0x50) as u8;
    let shade: u8 = tone - 0x14;
    let mut pixels: Vec<u8> = Vec::new();
    let mut y: u32 = 0;
    while y < height
        invariant
            width == dimensions(size).0,
            height == dimensions(size).1,
            tone == tone_of(path@),
            shade == tone - 0x14,
            y <= height,
            pixels@.len() == y * width * 4,
            forall|i: int| 0 <= i < pixels@.len() ==> #[trigger] pixels@[i] == synthesized_byte(width as int, height as int, tone, i),
        decreases height - y,
    {
        let v: u8 = if y * 3 >= height * 2 { shade } else { tone };
        let mut x: u32 = 0;
        while x < width
            invariant
                width == dimensions(size).0,
                height == dimensions(size).1,
                tone == tone_of(path@),
                shade == tone - 0x14,
                y < height,
                x <= width,
                v == (if y * 3 >= height * 2 { shade } else { tone }),
                pixels@.len() == (y * width + x) * 4,
                forall|i: int| 0 <= i < pixels@.len() ==> #[trigger] pixels@[i] == synthesized_byte(width as int, height as int, tone, i),
            decreases width - x,
        {
            let ghost before = pixels@;
            pixels.push(v);
            pixels.push(v);
            pixels.push(v);
            pixels.push(0xFF);
            proof {
                let b = (y * width + x) * 4;
                assert forall|i: int| b <= i < b + 4 implies #[trigger] pixels@[i] == synthesized_byte(width as int, height as int, tone, i) by {
                    lemma_row_of(i, y as int, width as int);
                    assert(i % 4 == i - b) by {
                        vstd::arithmetic::div_mod::lemma_fundamental_div_mod_converse(i, 4, y * width + x, i - b);
                    }
                }
                assert forall|i: int| 0 <= i < pixels@.len() implies #[trigger] pixels@[i] == synthesized_byte(width as int, height as int, tone, i) by {
                    if i < b {
                        assert(pixels@[i] == before[i]);
                    }
                }
            }
            x = x + 1;
        }
        assert((y * width + width) * 4 == (y + 1) * width * 4) by (nonlinear_arith);
        y = y + 1;
    }
    Rgba { width, height, pixels }
}

/// Synthesized posters and stills, the fixture image source.
pub struct FixtureImages;

impl FixtureImages {
    /// The synthesized image of `path` at `size`.
    pub fn image(&self, path: &str, size: ImageSize) -> (r: Rgba)
        ensures
            (r.width, r.height) == dimensions(size),
            r.pixels@.len() == r.width * r.height * 4,
            forall|i: int| 0 <= i < r.pixels@.len() ==> #[trigger] r.pixels@[i] == synthesized_byte(r.width as int, r.height as int, tone_of(path@), i),
    {
        synthesize(path, size)
    }
}

} // verus!
