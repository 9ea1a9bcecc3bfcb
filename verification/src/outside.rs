//! What the library takes from other crates: declared types, and wrappers whose
//! contracts are not proved here.
use crate::picture::{centre, square_side, Color, ColorImage, Raster};
use crate::seconds::Seconds;
use vstd::arithmetic::power2::pow2;
use vstd::prelude::*;

verus! {

/// `std::sync::mpsc::Receiver`, which the library only carries.
#[verifier::external_type_specification]
#[verifier::external_body]
#[verifier::reject_recursive_types(T)]
pub struct ExReceiver<T>(std::sync::mpsc::Receiver<T>);

/// `egui::TextureHandle`, which the library only carries.
#[verifier::external_type_specification]
#[verifier::external_body]
pub struct ExTextureHandle(egui::TextureHandle);

/// The width, the height and the RGBA bytes of an encoded image, or nothing
/// where the bytes are not one: `image::load_from_memory` followed by
/// `DynamicImage::to_rgba8`.
pub uninterp spec fn decoded_rgba8(data: Seq<u8>) -> Option<(u32, u32, Seq<u8>)>;

/// `image::load_from_memory` and `image::DynamicImage::to_rgba8`. The contract
/// claims that the outcome depends on the bytes alone, and that the buffer
/// holds four bytes for each pixel. Which bytes are an image, and what it
/// shows, is left to the crate's decoders.
#[verifier::external_body]
pub(crate) fn load_rgba8(data: &[u8]) -> (r: Option<Raster>)
    ensures
        match r {
            Some(x) => decoded_rgba8(data@) == Some((x.width, x.height, x.rgba@)),
            None => decoded_rgba8(data@) is None,
        },
        r matches Some(x) ==> x.wf(),
{
    let buffer = image::load_from_memory(data).ok()?.to_rgba8();
    Some(Raster { width: buffer.width(), height: buffer.height(), rgba: buffer.into_raw() })
}

/// `image::DynamicImage::resize_to_fill`, asked for the largest square that
/// fits. The scale is then exactly one, so that the contract can say what comes
/// out: the pixels are not resampled, only the middle is cut out.
#[verifier::external_body]
pub(crate) fn resize_to_fill(raster: Raster, size: u32) -> (r: Raster)
    requires
        raster.wf(),
        size == square_side(raster.width, raster.height),
    ensures
        r.width == size,
        r.height == size,
        r.rgba@ == centre(raster.width, raster.height, raster.rgba@, size),
{
    let buffer = image::RgbaImage::from_raw(raster.width, raster.height, raster.rgba).unwrap();
    let square = image::DynamicImage::ImageRgba8(buffer).resize_to_fill(
        size,
        size,
        image::imageops::FilterType::Lanczos3,
    ).into_rgba8();
    Raster { width: square.width(), height: square.height(), rgba: square.into_raw() }
}

/// Red, green, blue and alpha of a colour after `Color32::from_rgba_unmultiplied`.
/// A translucent colour comes from a table that each process makes once; the
/// name stands for that table.
pub uninterp spec fn premultiplied(r: u8, g: u8, b: u8, a: u8) -> (u8, u8, u8, u8);

/// `egui::ColorImage::from_rgba_unmultiplied`, which panics unless the buffer
/// holds four bytes for each pixel. The contract claims that every pixel is
/// converted by itself, that alpha zero gives the transparent colour and alpha
/// 255 keeps the colour, and that alpha is kept in any case.
#[verifier::external_body]
pub(crate) fn from_rgba_unmultiplied(width: usize, height: usize, rgba: &[u8]) -> (r: ColorImage)
    requires
        rgba@.len() == 4 * (width * height),
    ensures
        r.width == width,
        r.height == height,
        r.pixels@.len() == width * height,
        forall|i: int|
            0 <= i < r.pixels@.len() ==> {
                let c = #[trigger] r.pixels@[i];
                (c.r, c.g, c.b, c.a) == premultiplied(
                    rgba@[4 * i],
                    rgba@[4 * i + 1],
                    rgba@[4 * i + 2],
                    rgba@[4 * i + 3],
                )
            },
        forall|i: int| 0 <= i < r.pixels@.len() ==> (#[trigger] r.pixels@[i]).a == rgba@[4 * i + 3],
        forall|i: int|
            0 <= i < r.pixels@.len() && rgba@[4 * i + 3] == 0 ==> #[trigger] r.pixels@[i] == (Color {
                r: 0,
                g: 0,
                b: 0,
                a: 0,
            }),
        forall|i: int|
            0 <= i < r.pixels@.len() && rgba@[4 * i + 3] == 255 ==> #[trigger] r.pixels@[i] == (Color {
                r: rgba@[4 * i],
                g: rgba@[4 * i + 1],
                b: rgba@[4 * i + 2],
                a: 255,
            }),
{
    let image = egui::ColorImage::from_rgba_unmultiplied([width, height], rgba);
    let pixels = image.pixels.iter().map(
        |c| Color { r: c.r(), g: c.g(), b: c.b(), a: c.a() },
    ).collect();
    ColorImage { width: image.size[0], height: image.size[1], pixels }
}

/// `egui::Color32::from_rgb`: the opaque colour of three channels.
#[verifier::external_body]
pub(crate) fn from_rgb(r: u8, g: u8, b: u8) -> (c: Color)
    ensures
        c == (Color { r, g, b, a: 255 }),
{
    let c = egui::Color32::from_rgb(r, g, b);
    Color { r: c.r(), g: c.g(), b: c.b(), a: c.a() }
}

/// A text in upper case, as `str::to_uppercase` has it.
pub uninterp spec fn uppercased(text: Seq<char>) -> Seq<char>;

/// `str::to_uppercase`. The contract claims that the outcome depends on the
/// text alone; the case mapping is that of Unicode.
#[verifier::external_body]
pub(crate) fn to_uppercase(text: &str) -> (r: String)
    ensures
        r@ == uppercased(text@),
{
    text.to_uppercase()
}

/// The bits of `Duration::as_secs_f64` of a number of nanoseconds.
pub uninterp spec fn secs_of_nanos(nanos: u64) -> u64;

/// Below this span, about 97 days, neighbouring doubles are less than a
/// nanosecond apart when they count seconds.
pub const FINE_NANOS: u64 = 8_388_608_000_000_000;

/// Whether a value, counted in the smallest positive double, tells the seconds
/// of a number of nanoseconds: whole seconds exactly, any other span between the
/// whole seconds around it, and less than a nanosecond off where doubles are
/// that fine. One second is two to the power of 1074 of the smallest double.
pub open spec fn tells_seconds(value: int, nanos: u64) -> bool {
    let whole = nanos as int / 1_000_000_000;
    &&& nanos as int % 1_000_000_000 == 0 ==> value == whole * pow2(1074)
    &&& whole * pow2(1074) <= value <= (whole + 1) * pow2(1074)
    &&& nanos < FINE_NANOS ==> (nanos - 1) * pow2(1074) < 1_000_000_000 * value < (nanos + 1)
        * pow2(1074)
}

/// `std::time::Duration::as_secs_f64`: the number of seconds in a span of time,
/// its nanoseconds included, as the bits of a double-precision number. The
/// contract claims that it depends on the number of nanoseconds alone, that it
/// tells the seconds as `tells_seconds` has it, and that a shorter span does not
/// come out longer. How a fraction of a second is rounded within these bounds is
/// left unsaid.
#[verifier::external_body]
pub(crate) fn elapsed_secs(nanos: u64) -> (bits: u64)
    ensures
        bits == secs_of_nanos(nanos),
        !(Seconds { bits }).is_nan(),
        tells_seconds((Seconds { bits }).value(), nanos),
        forall|shorter: u64|
            shorter <= nanos ==> (Seconds { bits: #[trigger] secs_of_nanos(shorter) }).le(
                Seconds { bits },
            ),
{
    std::time::Duration::from_nanos(nanos).as_secs_f64().to_bits()
}

} // verus!
