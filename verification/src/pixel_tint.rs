//! Recoloring of green model pixels to red, used to tell enemy planes apart
//! from the player plane, which shares the same model and texture.

use vstd::prelude::*;

verus! {

/// A pixel counts as green only when its green channel reaches this level.
pub const PLANE_GREEN_RED_THRESHOLD: u8 = 96;

/// Green must exceed both red and blue by at least this much.
pub const PLANE_GREEN_DOMINANCE_MARGIN: u8 = 32;

/// The byte layouts that the tinting understands.
#[derive(Clone, Copy, Debug, PartialEq, Eq, Structural)]
pub enum PlaneTextureFormat {
    Rgba8Unorm,
    Rgba8UnormSrgb,
    Bgra8Unorm,
    Bgra8UnormSrgb,
    /// Any layout that is left untouched.
    Other,
}

/// The part of a texture that tinting reads and writes: its pixel layout and
/// its bytes in main memory, if it keeps any.
pub struct PlaneImage {
    pub format: PlaneTextureFormat,
    pub data: Option<Vec<u8>>,
}

/// When a pixel with these channel values is recolored.
pub open spec fn spec_is_green_pixel(red: u8, green: u8, blue: u8) -> bool {
    &&& green >= PLANE_GREEN_RED_THRESHOLD
    &&& green - red >= PLANE_GREEN_DOMINANCE_MARGIN
    &&& green - blue >= PLANE_GREEN_DOMINANCE_MARGIN
}

/// Number of whole four-byte pixels in a buffer; trailing bytes are ignored.
pub open spec fn pixel_count(data: Seq<u8>) -> int {
    data.len() as int / 4
}

/// Whether pixel `p` is green, where `red_at` is the byte offset of the red
/// channel inside a pixel (0 for RGBA, 2 for BGRA); blue sits at `2 - red_at`.
pub open spec fn is_green_at(data: Seq<u8>, red_at: int, p: int) -> bool {
    spec_is_green_pixel(data[4 * p + red_at], data[4 * p + 1], data[4 * p + 2 - red_at])
}

/// The byte at offset `i` after tinting: channels of green pixels become
/// pure red, alpha and every other byte stay as they were.
pub open spec fn tinted_byte(data: Seq<u8>, red_at: int, i: int) -> u8 {
    let p = i / 4;
    let c = i % 4;
    if p < pixel_count(data) && is_green_at(data, red_at, p) {
        if c == red_at {
            255
        } else if c == 1 || c == 2 - red_at {
            0
        } else {
            data[i]
        }
    } else {
        data[i]
    }
}

/// The whole buffer after tinting.
pub open spec fn tinted(data: Seq<u8>, red_at: int) -> Seq<u8> {
    Seq::new(data.len(), |i: int| tinted_byte(data, red_at, i))
}

/// Number of green pixels among the first `n` pixels.
pub open spec fn green_pixel_count(data: Seq<u8>, red_at: int, n: int) -> nat
    decreases n,
{
    if n <= 0 {
        0
    } else {
        green_pixel_count(data, red_at, n - 1) + if is_green_at(data, red_at, n - 1) {
            1nat
        } else {
            0nat
        }
    }
}

/// Whether a pixel with these channels should be recolored.
pub fn plane_is_green_pixel(red: u8, green: u8, blue: u8) -> (result: bool)
    ensures
        result == spec_is_green_pixel(red, green, blue),
{
    green >= PLANE_GREEN_RED_THRESHOLD && green.saturating_sub(red) >= PLANE_GREEN_DOMINANCE_MARGIN
        && green.saturating_sub(blue) >= PLANE_GREEN_DOMINANCE_MARGIN
}

/// Recolors the green pixels of `data` in place; `red_at` is the offset of the
/// red channel in a pixel. Returns how many pixels changed.
fn tint_green_pixels(data: &mut Vec<u8>, red_at: usize) -> (changed_pixels: usize)
    requires
        red_at == 0 || red_at == 2,
    ensures
        final(data)@ == tinted(old(data)@, red_at as int),
        changed_pixels == green_pixel_count(old(data)@, red_at as int, pixel_count(old(data)@)),
{
    let ghost original = data@;
    let blue_at: usize = 2 - red_at;
    let len = data.len();
    let mut changed_pixels: usize = 0;
    let mut start: usize = 0;
    while len - start >= 4
        invariant
            red_at == 0 || red_at == 2,
            blue_at == 2 - red_at,
            len == original.len(),
            data@.len() == len,
            start % 4 == 0,
            start <= len,
            changed_pixels <= start / 4,
            changed_pixels == green_pixel_count(original, red_at as int, start as int / 4),
            forall|i: int| 0 <= i < start ==> data@[i] == tinted_byte(original, red_at as int, i),
            forall|i: int| start <= i < len ==> data@[i] == original[i],
        decreases len - start,
    {
        let ghost p = start as int / 4;
        assert(start as int == 4 * p);
        if plane_is_green_pixel(data[start + red_at], data[start + 1], data[start + blue_at]) {
            data.set(start + red_at, 255);
            data.set(start + 1, 0);
            data.set(start + blue_at, 0);
            changed_pixels = changed_pixels + 1;
        }
        proof {
            assert(is_green_at(original, red_at as int, p) == spec_is_green_pixel(
                original[start + red_at],
                original[start + 1],
                original[start + blue_at],
            ));
            assert forall|i: int| start <= i < start + 4 implies data@[i] == tinted_byte(
                original,
                red_at as int,
                i,
            ) by {
                assert(i / 4 == p);
                assert(i % 4 == i - start);
            }
        }
        start = start + 4;
        assert((start as int) / 4 == p + 1);
    }
    proof {
        assert((start as int) / 4 == pixel_count(original));
        assert forall|i: int| start <= i < len implies data@[i] == tinted_byte(
            original,
            red_at as int,
            i,
        ) by {
            assert(i / 4 >= pixel_count(original));
        }
        assert(data@ =~= tinted(original, red_at as int));
    }
    changed_pixels
}

/// Recolors green pixels of RGBA bytes to pure red; returns how many changed.
/// Without bytes nothing changes.
pub fn plane_tint_green_pixels_to_red_rgba8(data: &mut Option<Vec<u8>>) -> (changed_pixels: usize)
    ensures
        (*final(data) is Some) == (*old(data) is Some),
        *old(data) is Some ==> (*final(data))->0@ == tinted((*old(data))->0@, 0),
        changed_pixels == match *old(data) {
            Some(bytes) => green_pixel_count(bytes@, 0, pixel_count(bytes@)),
            None => 0,
        },
{
    match data {
        Some(bytes) => tint_green_pixels(bytes, 0),
        None => 0,
    }
}

/// Recolors green pixels of BGRA bytes to pure red; returns how many changed.
/// Without bytes nothing changes.
pub fn plane_tint_green_pixels_to_red_bgra8(data: &mut Option<Vec<u8>>) -> (changed_pixels: usize)
    ensures
        (*final(data) is Some) == (*old(data) is Some),
        *old(data) is Some ==> (*final(data))->0@ == tinted((*old(data))->0@, 2),
        changed_pixels == match *old(data) {
            Some(bytes) => green_pixel_count(bytes@, 2, pixel_count(bytes@)),
            None => 0,
        },
{
    match data {
        Some(bytes) => tint_green_pixels(bytes, 2),
        None => 0,
    }
}

/// Offset of the red channel inside a pixel of a layout the tinting
/// understands, or `None` for a layout it leaves alone.
pub open spec fn red_channel_offset(format: PlaneTextureFormat) -> Option<int> {
    match format {
        PlaneTextureFormat::Rgba8Unorm | PlaneTextureFormat::Rgba8UnormSrgb => Some(0),
        PlaneTextureFormat::Bgra8Unorm | PlaneTextureFormat::Bgra8UnormSrgb => Some(2),
        PlaneTextureFormat::Other => None,
    }
}

/// Bytes of an image of layout `format` after tinting.
pub open spec fn tinted_image_bytes(format: PlaneTextureFormat, data: Seq<u8>) -> Seq<u8> {
    match red_channel_offset(format) {
        Some(red_at) => tinted(data, red_at),
        None => data,
    }
}

/// How many pixels tinting recolors in bytes of layout `format`.
pub open spec fn image_green_pixels(format: PlaneTextureFormat, data: Seq<u8>) -> nat {
    match red_channel_offset(format) {
        Some(red_at) => green_pixel_count(data, red_at, pixel_count(data)),
        None => 0,
    }
}

/// How many pixels tinting recolors in an image.
pub open spec fn spec_changed_pixels(image: PlaneImage) -> nat {
    match image.data {
        Some(bytes) => image_green_pixels(image.format, bytes@),
        None => 0,
    }
}

/// Recolors the green pixels of an image in place, by its layout; images of
/// other layouts, and images without bytes in memory, stay as they are.
/// Returns how many pixels changed.
pub fn plane_tint_green_pixels_to_red(image: &mut PlaneImage) -> (changed_pixels: usize)
    ensures
        final(image).format == old(image).format,
        (final(image).data is Some) == (old(image).data is Some),
        old(image).data is Some ==> final(image).data->0@ == tinted_image_bytes(
            old(image).format,
            old(image).data->0@,
        ),
        changed_pixels == spec_changed_pixels(*old(image)),
{
    match image.format {
        PlaneTextureFormat::Rgba8Unorm | PlaneTextureFormat::Rgba8UnormSrgb => {
            plane_tint_green_pixels_to_red_rgba8(&mut image.data)
        },
        PlaneTextureFormat::Bgra8Unorm | PlaneTextureFormat::Bgra8UnormSrgb => {
            plane_tint_green_pixels_to_red_bgra8(&mut image.data)
        },
        PlaneTextureFormat::Other => 0,
    }
}

/// A tinted copy of `source`, or `None` when tinting would change no pixel
/// (so the original texture can be kept).
pub fn plane_tinted_image_copy(source: &PlaneImage) -> (copy: Option<PlaneImage>)
    ensures
        copy is Some <==> spec_changed_pixels(*source) > 0,
        copy matches Some(image) ==> {
            &&& image.format == source.format
            &&& image.data is Some
            &&& image.data->0@ == tinted_image_bytes(source.format, source.data->0@)
        },
{
    let data = match &source.data {
        Some(bytes) => Some(bytes.clone()),
        None => None,
    };
    let mut image = PlaneImage { format: source.format, data };
    let changed_pixels = plane_tint_green_pixels_to_red(&mut image);
    if changed_pixels == 0 {
        None
    } else {
        Some(image)
    }
}

/// Whether tinting a loaded enemy model is finished, from what each of its
/// descendants gave: `None` for a node without material, `Some(true)` for a
/// material that was tinted, `Some(false)` for one whose assets are not
/// loaded yet. It is finished once some material was found and none waits.
pub fn enemy_texture_tint_finished(results: &[Option<bool>]) -> (finished: bool)
    ensures
        finished == ((exists|i: int| 0 <= i < results@.len() && #[trigger] results@[i] is Some)
            && (forall|i: int| 0 <= i < results@.len() ==> #[trigger] results@[i] != Some(false))),
{
    let mut found_material = false;
    let mut waiting_for_assets = false;
    let mut i: usize = 0;
    while i < results.len()
        invariant
            i <= results@.len(),
            found_material == exists|j: int| 0 <= j < i && #[trigger] results@[j] is Some,
            waiting_for_assets == exists|j: int| 0 <= j < i && #[trigger] results@[j] == Some(false),
        decreases results@.len() - i,
    {
        match results[i] {
            Some(tinted) => {
                found_material = true;
                if !tinted {
                    waiting_for_assets = true;
                }
            },
            None => {},
        }
        i = i + 1;
    }
    found_material && !waiting_for_assets
}

/// The bytes with the first and third channel of every whole pixel swapped,
/// turning RGBA into BGRA and back.
pub open spec fn swap_red_blue(data: Seq<u8>) -> Seq<u8> {
    Seq::new(
        data.len(),
        |i: int|
            if i / 4 < pixel_count(data) && i % 4 == 0 {
                data[i + 2]
            } else if i / 4 < pixel_count(data) && i % 4 == 2 {
                data[i - 2]
            } else {
                data[i]
            },
    )
}

/// If no pixel among the first `n` is green, none of them is counted.
proof fn lemma_no_green_counts_zero(data: Seq<u8>, red_at: int, n: int)
    requires
        forall|p: int| 0 <= p < n ==> !#[trigger] is_green_at(data, red_at, p),
    ensures
        green_pixel_count(data, red_at, n) == 0,
    decreases n,
{
    if n > 0 {
        lemma_no_green_counts_zero(data, red_at, n - 1);
    }
}

/// Tinting leaves no green pixel behind, so tinting twice is tinting once:
/// a second pass changes no byte and counts no pixel.
pub proof fn lemma_tinting_is_idempotent(data: Seq<u8>, red_at: int)
    requires
        red_at == 0 || red_at == 2,
    ensures
        tinted(tinted(data, red_at), red_at) == tinted(data, red_at),
        green_pixel_count(tinted(data, red_at), red_at, pixel_count(tinted(data, red_at))) == 0,
{
    let once = tinted(data, red_at);
    assert forall|p: int| 0 <= p < pixel_count(once) implies !#[trigger] is_green_at(
        once,
        red_at,
        p,
    ) by {
        assert((4 * p + 1) / 4 == p);
        assert((4 * p + 1) % 4 == 1);
        assert((4 * p + red_at) / 4 == p);
        assert((4 * p + red_at) % 4 == red_at);
        assert((4 * p + 2 - red_at) / 4 == p);
        assert((4 * p + 2 - red_at) % 4 == 2 - red_at);
    }
    lemma_no_green_counts_zero(once, red_at, pixel_count(once));
    assert(tinted(once, red_at) =~= once) by {
        assert forall|i: int| 0 <= i < once.len() implies tinted_byte(once, red_at, i)
            == once[i] by {
            let p = i / 4;
            if p < pixel_count(once) {
                assert(!is_green_at(once, red_at, p));
            }
        }
    }
}

/// Counting green BGRA pixels is counting green RGBA pixels after swapping
/// the red and blue channels.
proof fn lemma_swapped_counts(data: Seq<u8>, n: int)
    requires
        n <= pixel_count(data),
    ensures
        green_pixel_count(data, 2, n) == green_pixel_count(swap_red_blue(data), 0, n),
    decreases n,
{
    if n > 0 {
        lemma_swapped_counts(data, n - 1);
        let p = n - 1;
        let s = swap_red_blue(data);
        assert((4 * p) / 4 == p && (4 * p) % 4 == 0);
        assert((4 * p + 1) / 4 == p && (4 * p + 1) % 4 == 1);
        assert((4 * p + 2) / 4 == p && (4 * p + 2) % 4 == 2);
        assert(is_green_at(data, 2, p) == is_green_at(s, 0, p));
    }
}

/// Tinting BGRA bytes does the same as swapping red and blue, tinting the
/// result as RGBA and swapping back, and recolors as many pixels.
pub proof fn lemma_bgra_tinting_matches_rgba(data: Seq<u8>)
    ensures
        tinted(data, 2) == swap_red_blue(tinted(swap_red_blue(data), 0)),
        green_pixel_count(data, 2, pixel_count(data)) == green_pixel_count(
            swap_red_blue(data),
            0,
            pixel_count(swap_red_blue(data)),
        ),
{
    let s = swap_red_blue(data);
    let t = tinted(s, 0);
    let lhs = tinted(data, 2);
    let rhs = swap_red_blue(t);
    lemma_swapped_counts(data, pixel_count(data));
    assert forall|i: int| 0 <= i < data.len() implies lhs[i] == rhs[i] by {
        let p = i / 4;
        if p < pixel_count(data) {
            assert((4 * p) / 4 == p && (4 * p) % 4 == 0);
            assert((4 * p + 1) / 4 == p && (4 * p + 1) % 4 == 1);
            assert((4 * p + 2) / 4 == p && (4 * p + 2) % 4 == 2);
            assert(is_green_at(data, 2, p) == is_green_at(s, 0, p));
            let c = i % 4;
            assert(i == 4 * p + c);
            if c == 0 {
                assert((i + 2) / 4 == p && (i + 2) % 4 == 2);
            } else if c == 2 {
                assert((i - 2) / 4 == p && (i - 2) % 4 == 0);
            }
        }
    }
    assert(lhs =~= rhs);
}

/// Counting over more pixels never counts fewer.
proof fn lemma_green_count_grows(data: Seq<u8>, red_at: int, m: int, n: int)
    requires
        0 <= m <= n,
    ensures
        green_pixel_count(data, red_at, m) <= green_pixel_count(data, red_at, n),
    decreases n - m,
{
    if m < n {
        lemma_green_count_grows(data, red_at, m, n - 1);
    }
}

/// Each layout is tinted by where its channels sit, whatever its color
/// space: the linear and sRGB variants of RGBA tint as RGBA bytes (red
/// first), those of BGRA as BGRA bytes (red third), each returning the
/// number of green pixels in that byte order; only other layouts are left
/// as they are, with no pixel counted. In particular a first pixel that is
/// green in its layout becomes pure red (its alpha kept) and is counted.
pub proof fn lemma_tinting_follows_layout(data: Seq<u8>)
    ensures
        tinted_image_bytes(PlaneTextureFormat::Rgba8Unorm, data) == tinted(data, 0),
        tinted_image_bytes(PlaneTextureFormat::Rgba8UnormSrgb, data) == tinted(data, 0),
        tinted_image_bytes(PlaneTextureFormat::Bgra8Unorm, data) == tinted(data, 2),
        tinted_image_bytes(PlaneTextureFormat::Bgra8UnormSrgb, data) == tinted(data, 2),
        tinted_image_bytes(PlaneTextureFormat::Other, data) == data,
        image_green_pixels(PlaneTextureFormat::Rgba8Unorm, data) == green_pixel_count(data, 0, pixel_count(data)),
        image_green_pixels(PlaneTextureFormat::Rgba8UnormSrgb, data) == green_pixel_count(data, 0, pixel_count(data)),
        image_green_pixels(PlaneTextureFormat::Bgra8Unorm, data) == green_pixel_count(data, 2, pixel_count(data)),
        image_green_pixels(PlaneTextureFormat::Bgra8UnormSrgb, data) == green_pixel_count(data, 2, pixel_count(data)),
        image_green_pixels(PlaneTextureFormat::Other, data) == 0,
        forall|format: PlaneTextureFormat|
            (format == PlaneTextureFormat::Rgba8Unorm || format == PlaneTextureFormat::Rgba8UnormSrgb)
                && data.len() >= 4 && spec_is_green_pixel(data[0], data[1], data[2]) ==> {
                &&& #[trigger] tinted_image_bytes(format, data).len() == data.len()
                &&& tinted_image_bytes(format, data)[0] == 255
                &&& tinted_image_bytes(format, data)[1] == 0
                &&& tinted_image_bytes(format, data)[2] == 0
                &&& tinted_image_bytes(format, data)[3] == data[3]
                &&& image_green_pixels(format, data) >= 1
            },
        forall|format: PlaneTextureFormat|
            (format == PlaneTextureFormat::Bgra8Unorm || format == PlaneTextureFormat::Bgra8UnormSrgb)
                && data.len() >= 4 && spec_is_green_pixel(data[2], data[1], data[0]) ==> {
                &&& #[trigger] tinted_image_bytes(format, data).len() == data.len()
                &&& tinted_image_bytes(format, data)[0] == 0
                &&& tinted_image_bytes(format, data)[1] == 0
                &&& tinted_image_bytes(format, data)[2] == 255
                &&& tinted_image_bytes(format, data)[3] == data[3]
                &&& image_green_pixels(format, data) >= 1
            },
{
    if data.len() >= 4 {
        assert(pixel_count(data) >= 1);
        lemma_green_count_grows(data, 0, 1, pixel_count(data));
        lemma_green_count_grows(data, 2, 1, pixel_count(data));
        reveal_with_fuel(green_pixel_count, 2);
        assert(green_pixel_count(data, 0, 1) == (if is_green_at(data, 0, 0) { 1nat } else { 0nat }));
        assert(green_pixel_count(data, 2, 1) == (if is_green_at(data, 2, 0) { 1nat } else { 0nat }));
        assert(0int / 4 == 0 && 1int / 4 == 0 && 2int / 4 == 0 && 3int / 4 == 0);
        assert(0int % 4 == 0 && 1int % 4 == 1 && 2int % 4 == 2 && 3int % 4 == 3);
    }
}

} // verus!
