//! Framebuffer encoding: turning a palette-indexed snapshot of the emulated
//! display into raw RGBA image bytes.
//!
//! A snapshot holds one palette index per pixel in row-major order.  Encoding
//! looks each index up in a fixed 64-entry RGB palette table and emits the
//! three colour bytes followed by a fully opaque alpha byte.

use vstd::prelude::*;

verus! {

/// Width of the emulated display in pixels.
pub const SCREEN_WIDTH: usize = 256;

/// Height of the emulated display in pixels.
pub const SCREEN_HEIGHT: usize = 240;

/// Number of entries in the palette table.
pub const PALETTE_ENTRIES: usize = 64;

/// Size in bytes of the palette table: one RGB triple per entry.
pub const PALETTE_BYTES: usize = 192;

/// Bytes emitted per pixel: red, green, blue, alpha.
pub const BYTES_PER_PIXEL: usize = 4;

/// Number of pixels in one framebuffer snapshot.
pub open spec fn spec_pixel_count() -> int {
    (256 * 240) as int
}

/// Number of pixels in one framebuffer snapshot.
pub fn pixel_count() -> (n: usize)
    ensures
        n == spec_pixel_count(),
{
    SCREEN_WIDTH * SCREEN_HEIGHT
}

/// A well-formed snapshot: one byte per pixel of the display, each a palette
/// index in range.  An out-of-range index is a contract violation of the
/// emulator adapter, not of this encoder.
pub open spec fn valid_snapshot(snapshot: Seq<u8>) -> bool {
    &&& snapshot.len() == spec_pixel_count()
    &&& forall|i: int| 0 <= i < snapshot.len() ==> snapshot[i] < 64
}

/// A well-formed palette table: 64 RGB triples.
pub open spec fn valid_palette(palette: Seq<u8>) -> bool {
    palette.len() == 192
}

/// The RGB triple a palette index selects.
pub open spec fn palette_rgb(palette: Seq<u8>, index: u8) -> (u8, u8, u8)
    recommends
        valid_palette(palette),
        index < 64,
{
    (palette[3 * index], palette[3 * index + 1], palette[3 * index + 2])
}

/// Byte `k` of the encoded image: pixel `k / 4`, channel `k % 4`; the first
/// three channels come from the palette, the fourth is fully opaque.
pub open spec fn encoded_byte(snapshot: Seq<u8>, palette: Seq<u8>, k: int) -> u8
    recommends
        valid_snapshot(snapshot),
        valid_palette(palette),
        0 <= k < 4 * spec_pixel_count(),
{
    if k % 4 == 3 {
        255
    } else {
        palette[3 * (snapshot[k / 4] as int) + k % 4]
    }
}

/// The whole encoded image, a pure function of snapshot and palette.
pub open spec fn encoded_image(snapshot: Seq<u8>, palette: Seq<u8>) -> Seq<u8> {
    Seq::new((4 * spec_pixel_count()) as nat, |k: int| encoded_byte(snapshot, palette, k))
}

/// Error describing why a snapshot or palette cannot be encoded.
#[derive(Debug, PartialEq, Eq)]
pub enum EncodeError {
    /// The snapshot does not hold one byte per display pixel.
    SnapshotSize { len: usize },
    /// The palette table does not hold 64 RGB triples.
    PaletteSize { len: usize },
    /// A pixel holds a palette index outside the 64-entry table.
    IndexOutOfRange { pixel: usize, index: u8 },
}

/// Encodes a snapshot against a palette table.  Deterministic: the result is
/// pinned byte by byte as a pure function of the two inputs, so identical
/// inputs yield byte-identical images.
pub fn encode(snapshot: &Vec<u8>, palette: &Vec<u8>) -> (img: Vec<u8>)
    requires
        valid_snapshot(snapshot@),
        valid_palette(palette@),
    ensures
        img@ == encoded_image(snapshot@, palette@),
        img@.len() == 4 * spec_pixel_count(),
{
    let total = pixel_count();
    let mut img: Vec<u8> = Vec::new();
    for pix in 0..total
        invariant
            total == spec_pixel_count(),
            valid_snapshot(snapshot@),
            valid_palette(palette@),
            img@.len() == 4 * pix,
            forall|k: int| 0 <= k < 4 * pix ==> img@[k] == encoded_byte(snapshot@, palette@, k),
    {
        let index = snapshot[pix];
        let base = 3 * (index as usize);
        img.push(palette[base]);
        img.push(palette[base + 1]);
        img.push(palette[base + 2]);
        img.push(255);
        proof {
            assert forall|k: int| 0 <= k < 4 * (pix + 1) implies img@[k] == encoded_byte(
                snapshot@,
                palette@,
                k,
            ) by {
                if k >= 4 * pix {
                    assert(k / 4 == pix && k % 4 == k - 4 * pix);
                }
            }
        }
    }
    proof {
        assert(img@ =~= encoded_image(snapshot@, palette@));
    }
    img
}

/// Encodes after checking the adapter's side of the contract: the snapshot
/// must cover the display exactly and every palette index must be in range.
/// Returns the encoded image exactly when both inputs are well formed.
pub fn try_encode(snapshot: &Vec<u8>, palette: &Vec<u8>) -> (result: Result<Vec<u8>, EncodeError>)
    ensures
        result is Ok <==> valid_snapshot(snapshot@) && valid_palette(palette@),
        result matches Ok(img) ==> img@ == encoded_image(snapshot@, palette@),
        result matches Err(EncodeError::SnapshotSize { len }) ==> len == snapshot@.len()
            && snapshot@.len() != spec_pixel_count(),
        result matches Err(EncodeError::PaletteSize { len }) ==> len == palette@.len()
            && palette@.len() != 192,
        result matches Err(EncodeError::IndexOutOfRange { pixel, index }) ==> pixel
            < snapshot@.len() && snapshot@[pixel as int] == index && index >= 64,
{
    if snapshot.len() != pixel_count() {
        return Err(EncodeError::SnapshotSize { len: snapshot.len() });
    }
    if palette.len() != PALETTE_BYTES {
        return Err(EncodeError::PaletteSize { len: palette.len() });
    }
    let n = snapshot.len();
    for pix in 0..n
        invariant
            n == snapshot@.len(),
            forall|i: int| 0 <= i < pix ==> snapshot@[i] < 64,
    {
        if snapshot[pix] >= 64 {
            return Err(EncodeError::IndexOutOfRange { pixel: pix, index: snapshot[pix] });
        }
    }
    Ok(encode(snapshot, palette))
}

/// Every palette index an adapter may legally produce selects a defined RGB
/// triple: the lookup stays inside the 64-entry table, even at the boundary
/// index 63, and index 0 selects the first entry.
pub proof fn lemma_palette_index_defined(palette: Seq<u8>, index: u8)
    requires
        valid_palette(palette),
        index < 64,
    ensures
        0 <= 3 * index && 3 * index + 2 < palette.len(),
        index == 0 ==> palette_rgb(palette, index) == (palette[0], palette[1], palette[2]),
{
}

/// Encoding reads the palette exactly as `palette_rgb` says: each pixel of
/// the image carries the RGB triple of its palette index and an opaque alpha.
pub proof fn lemma_encode_pixels(snapshot: Seq<u8>, palette: Seq<u8>, pix: int)
    requires
        valid_snapshot(snapshot),
        valid_palette(palette),
        0 <= pix < spec_pixel_count(),
    ensures
        encoded_image(snapshot, palette)[4 * pix] == palette_rgb(palette, snapshot[pix]).0,
        encoded_image(snapshot, palette)[4 * pix + 1] == palette_rgb(palette, snapshot[pix]).1,
        encoded_image(snapshot, palette)[4 * pix + 2] == palette_rgb(palette, snapshot[pix]).2,
        encoded_image(snapshot, palette)[4 * pix + 3] == 255,
{
    assert((4 * pix) % 4 == 0 && (4 * pix) / 4 == pix);
    assert((4 * pix + 1) % 4 == 1 && (4 * pix + 1) / 4 == pix);
    assert((4 * pix + 2) % 4 == 2 && (4 * pix + 2) / 4 == pix);
    assert((4 * pix + 3) % 4 == 3);
}

/// Encoding is deterministic: identical snapshot and palette inputs produce
/// byte-identical images, however often the encoder is invoked.
pub proof fn lemma_encode_deterministic(
    snapshot1: Seq<u8>,
    palette1: Seq<u8>,
    snapshot2: Seq<u8>,
    palette2: Seq<u8>,
)
    requires
        snapshot1 == snapshot2,
        palette1 == palette2,
    ensures
        encoded_image(snapshot1, palette1) == encoded_image(snapshot2, palette2),
{
}

} // verus!
