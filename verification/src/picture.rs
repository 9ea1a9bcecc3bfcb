//! Decoded pictures: the media image as it came, and the avatar cut to a disc.
use crate::outside::{
    decoded_rgba8, from_rgba_unmultiplied, load_rgba8, premultiplied, resize_to_fill,
};
use crate::single::{
    law_rounding_is_to_nearest, law_rounding_keeps_multiples, law_rounding_keeps_small_numbers,
    lemma_first_spacings, lemma_rounded_bound, round, rounded, ulp,
};
use crate::types::VideoFrame;
use vstd::prelude::*;

verus! {

/// A colour with premultiplied alpha.
#[derive(Clone, Copy, Debug, PartialEq, Eq, Structural)]
pub struct Color {
    pub r: u8,
    pub g: u8,
    pub b: u8,
    pub a: u8,
}

/// Rows of pixels, four bytes each: red, green, blue and alpha, not premultiplied.
#[derive(Debug)]
pub struct Raster {
    pub width: u32,
    pub height: u32,
    pub rgba: Vec<u8>,
}

impl Raster {
    /// The buffer holds every pixel and nothing else.
    pub open spec fn wf(self) -> bool {
        self.rgba@.len() == 4 * (self.width * self.height)
    }
}

/// A picture ready to become a texture.
#[derive(Debug)]
pub struct ColorImage {
    pub width: usize,
    pub height: usize,
    pub pixels: Vec<Color>,
}

/// What a picture shows.
pub struct ImageView {
    pub width: nat,
    pub height: nat,
    pub pixels: Seq<Color>,
}

impl View for ColorImage {
    type V = ImageView;

    open spec fn view(&self) -> ImageView {
        ImageView {
            width: self.width as nat,
            height: self.height as nat,
            pixels: self.pixels@,
        }
    }
}

/// The colour of pixel `i` of a buffer that is not premultiplied.
pub open spec fn pixel_color(rgba: Seq<u8>, i: int) -> Color {
    let c = premultiplied(rgba[4 * i], rgba[4 * i + 1], rgba[4 * i + 2], rgba[4 * i + 3]);
    Color { r: c.0, g: c.1, b: c.2, a: c.3 }
}

/// The picture of a buffer.
pub open spec fn picture_of(width: nat, height: nat, rgba: Seq<u8>) -> ImageView {
    ImageView {
        width,
        height,
        pixels: Seq::new(rgba.len() / 4, |i: int| pixel_color(rgba, i)),
    }
}

/// The side of the largest square that fits.
pub open spec fn square_side(width: u32, height: u32) -> u32 {
    if width <= height {
        width
    } else {
        height
    }
}

/// The square of side `size` in the middle of a buffer.
pub open spec fn centre(width: u32, height: u32, rgba: Seq<u8>, size: u32) -> Seq<u8> {
    let left = (width - size) / 2;
    let top = (height - size) / 2;
    Seq::new(
        (4 * (size * size)) as nat,
        |i: int|
            rgba[4 * ((top + i / 4 / size as int) * width + left + i / 4 % size as int) + i % 4],
    )
}

/// Twice the distance between column (or row) `v` and the middle of a picture
/// of side `size`, as single precision has it.
pub open spec fn doubled_offset(v: nat, size: nat) -> nat {
    let d = 2 * rounded(v) - rounded(size);
    rounded(
        if d >= 0 {
            d as nat
        } else {
            (-d) as nat
        },
    )
}

/// Whether the corner of pixel (`x`, `y`) lies outside the disc that fills a
/// picture of side `size`. Each product and the sum are rounded to single
/// precision, in quarters of a pixel.
pub open spec fn outside_disc(x: nat, y: nat, size: nat) -> bool {
    let dx = doubled_offset(x, size);
    let dy = doubled_offset(y, size);
    let s = rounded(size);
    rounded(rounded(dx * dx) + rounded(dy * dy)) > rounded(s * s)
}

/// A square buffer with the alpha of every pixel outside the disc set to zero.
pub open spec fn cut_to_disc(rgba: Seq<u8>, size: u32) -> Seq<u8> {
    Seq::new(
        rgba.len(),
        |i: int|
            if i % 4 == 3 && outside_disc(
                (i / 4 % size as int) as nat,
                (i / 4 / size as int) as nat,
                size as nat,
            ) {
                0u8
            } else {
                rgba[i]
            },
    )
}

/// The largest odd side of a picture whose mask is the exact disc.
pub const EXACT_ODD_SIDE: u32 = 4095;

/// The largest even side of a picture whose mask is the exact disc. The middle
/// is then the corner of a pixel, which leaves one more bit for the distances.
pub const EXACT_EVEN_SIDE: u32 = 8190;

/// Whether the mask of a picture of side `size` is the exact disc.
pub open spec fn has_exact_mask(size: nat) -> bool {
    size <= if size % 2 == 0 {
        EXACT_EVEN_SIDE
    } else {
        EXACT_ODD_SIDE
    }
}

/// On a picture of at most 4096 pixels a side, or 8190 where their number is
/// even, the mask is the exact disc: a pixel goes where its distance from the
/// middle exceeds half the side.
pub proof fn law_mask_is_the_disc(x: nat, y: nat, size: nat)
    requires
        has_exact_mask(size),
        x < size,
        y < size,
    ensures
        outside_disc(x, y, size) <==> (2 * x - size) * (2 * x - size) + (2 * y - size) * (2 * y
            - size) > size * size,
{
    law_rounding_keeps_small_numbers(x);
    law_rounding_keeps_small_numbers(y);
    law_rounding_keeps_small_numbers(size);
    let dx = 2 * x - size;
    let dy = 2 * y - size;
    let ax = (if dx >= 0 { dx } else { -dx }) as nat;
    let ay = (if dy >= 0 { dy } else { -dy }) as nat;
    law_rounding_keeps_small_numbers(ax);
    law_rounding_keeps_small_numbers(ay);
    assert(ax * ax == dx * dx) by (nonlinear_arith)
        requires
            ax == dx || ax == -dx,
    ;
    assert(ay * ay == dy * dy) by (nonlinear_arith)
        requires
            ay == dy || ay == -dy,
    ;
    lemma_square_is_exact(ax, size);
    lemma_square_is_exact(ay, size);
    lemma_square_is_exact(size, size);
    lemma_sum_compares_exactly(ax * ax + ay * ay, size * size, size % 2 == 0);
}

/// A sum of two such squares compares with the third as it does before it is
/// rounded: where the spacing has outgrown the unit, the sum is larger than the
/// square of the side by more than the rounding takes away.
proof fn lemma_sum_compares_exactly(sum: nat, square: nat, even: bool)
    requires
        even ==> sum % 4 == 0 && sum <= 2 * (EXACT_EVEN_SIDE * EXACT_EVEN_SIDE) && square
            <= EXACT_EVEN_SIDE * EXACT_EVEN_SIDE,
        !even ==> sum <= 2 * (EXACT_ODD_SIDE * EXACT_ODD_SIDE) && square <= EXACT_ODD_SIDE
            * EXACT_ODD_SIDE,
    ensures
        rounded(sum) > square <==> sum > square,
{
    lemma_first_spacings(sum);
    if sum % ulp(sum) == 0 {
        law_rounding_keeps_multiples(sum);
    } else {
        law_rounding_is_to_nearest(sum);
    }
}

/// Small numbers need no rounding, nor do multiples of four up to four times
/// their size.
proof fn lemma_fine_numbers_are_exact(n: nat, even: bool)
    requires
        even ==> n % 4 == 0 && n < 0x400_0000,
        !even ==> n < 0x100_0000,
    ensures
        rounded(n) == n,
{
    lemma_first_spacings(n);
    law_rounding_keeps_multiples(n);
}

/// The square of a distance on a picture with an exact mask needs no rounding;
/// it is a multiple of four where the side is even.
proof fn lemma_square_is_exact(a: nat, size: nat)
    requires
        has_exact_mask(size),
        a <= size,
        a % 2 == size % 2,
    ensures
        rounded(a * a) == a * a,
        size % 2 == 0 ==> (a * a) % 4 == 0 && a * a <= EXACT_EVEN_SIDE * EXACT_EVEN_SIDE,
        size % 2 == 1 ==> a * a <= EXACT_ODD_SIDE * EXACT_ODD_SIDE,
{
    let square = a * a;
    if size % 2 == 0 {
        let half = a / 2;
        let quarter = half * half;
        assert(square == 4 * quarter) by (nonlinear_arith)
            requires
                a == 2 * half,
                square == a * a,
                quarter == half * half,
        ;
        assert(square <= 67076100) by (nonlinear_arith)
            requires
                a <= 8190,
                square == a * a,
        ;
    } else {
        assert(square <= 16769025) by (nonlinear_arith)
            requires
                a <= 4095,
                square == a * a,
        ;
    }
    lemma_fine_numbers_are_exact(square, size % 2 == 0);
}

/// Computes `doubled_offset`.
fn doubled_offset_of(v: u32, size: u32) -> (d: u128)
    ensures
        d == doubled_offset(v as nat, size as nat),
        d <= 0x8_0000_0000,
{
    proof {
        lemma_rounded_bound(v as nat);
        lemma_rounded_bound(size as nat);
    }
    let twice: u128 = 2 * round(v as u128);
    let s: u128 = round(size as u128);
    let gap: u128 = if twice >= s { twice - s } else { s - twice };
    proof {
        lemma_rounded_bound(gap as nat);
    }
    round(gap)
}

/// Computes `outside_disc`.
pub fn is_outside_disc(x: u32, y: u32, size: u32) -> (r: bool)
    ensures
        r == outside_disc(x as nat, y as nat, size as nat),
{
    let dx: u128 = doubled_offset_of(x, size);
    let dy: u128 = doubled_offset_of(y, size);
    let s: u128 = round(size as u128);
    proof {
        lemma_rounded_bound(size as nat);
        assert(dx * dx <= 0x40_0000_0000_0000_0000) by (nonlinear_arith)
            requires
                dx <= 0x8_0000_0000,
        ;
        assert(dy * dy <= 0x40_0000_0000_0000_0000) by (nonlinear_arith)
            requires
                dy <= 0x8_0000_0000,
        ;
        assert(s * s <= 0x40_0000_0000_0000_0000) by (nonlinear_arith)
            requires
                s <= 0x8_0000_0000,
        ;
        lemma_rounded_bound((dx * dx) as nat);
        lemma_rounded_bound((dy * dy) as nat);
    }
    round(round(dx * dx) + round(dy * dy)) > round(s * s)
}

/// Makes every pixel outside the disc transparent and keeps all other bytes.
pub fn cut_circle(raster: &mut Raster)
    requires
        old(raster).wf(),
        old(raster).width == old(raster).height,
    ensures
        final(raster).width == old(raster).width,
        final(raster).height == old(raster).height,
        final(raster).rgba@ == cut_to_disc(old(raster).rgba@, old(raster).width),
{
    let size: u32 = raster.width;
    let count: usize = raster.rgba.len() / 4;
    let mut p: usize = 0;
    while p < count
        invariant
            size == raster.width,
            raster.width == old(raster).width,
            raster.height == old(raster).height,
            raster.rgba@.len() == old(raster).rgba@.len(),
            raster.rgba@.len() == 4 * (size * size),
            count == size * size,
            p <= count,
            forall|i: int|
                0 <= i < 4 * p ==> raster.rgba@[i] == #[trigger] cut_to_disc(
                    old(raster).rgba@,
                    size,
                )[i],
            forall|i: int| 4 * p <= i < raster.rgba@.len() ==> #[trigger] raster.rgba@[i] == old(raster).rgba@[i],
        decreases count - p,
    {
        proof {
            assert(size > 0) by (nonlinear_arith)
                requires
                    p < size * size,
                    p >= 0,
                    size >= 0,
            ;
            assert(4 * p + 3 < raster.rgba.len());
            assert(p / (size as usize) < size) by (nonlinear_arith)
                requires
                    p < size * size,
                    size > 0,
            ;
        }
        let x: u32 = (p % (size as usize)) as u32;
        let y: u32 = (p / (size as usize)) as u32;
        let ghost before = raster.rgba@;
        if is_outside_disc(x, y, size) {
            raster.rgba[4 * p + 3] = 0;
        }
        proof {
            let cut = cut_to_disc(old(raster).rgba@, size);
            assert forall|i: int| 0 <= i < 4 * (p + 1) implies raster.rgba@[i] == #[trigger] cut[i] by {
                if i < 4 * p {
                    assert(before[i] == cut[i]);
                } else {
                    assert(i / 4 == p);
                    assert(before[i] == old(raster).rgba@[i]);
                }
            }
        }
        p = p + 1;
    }
    assert(raster.rgba@ =~= cut_to_disc(old(raster).rgba@, size));
}

/// What a media image shows: the decoded picture, or nothing where the bytes
/// are no image.
pub open spec fn image_of(data: Seq<u8>) -> Option<ImageView> {
    match decoded_rgba8(data) {
        Some((width, height, rgba)) => Some(picture_of(width as nat, height as nat, rgba)),
        None => None,
    }
}

/// What an avatar shows: the centre square of the decoded picture, cut to a disc.
pub open spec fn avatar_of(data: Seq<u8>) -> Option<ImageView> {
    match decoded_rgba8(data) {
        Some((width, height, rgba)) => {
            let size = square_side(width, height);
            Some(
                picture_of(
                    size as nat,
                    size as nat,
                    cut_to_disc(centre(width, height, rgba, size), size),
                ),
            )
        },
        None => None,
    }
}

/// A picture has the size of its buffer, and each pixel is the premultiplied
/// colour of its own four bytes.
pub proof fn law_pictures_show_their_buffer(width: nat, height: nat, rgba: Seq<u8>, i: int)
    requires
        rgba.len() == 4 * (width * height),
        0 <= i < width * height,
    ensures
        picture_of(width, height, rgba).width == width,
        picture_of(width, height, rgba).height == height,
        picture_of(width, height, rgba).pixels.len() == width * height,
        ({
            let c = picture_of(width, height, rgba).pixels[i];
            (c.r, c.g, c.b, c.a) == premultiplied(
                rgba[4 * i],
                rgba[4 * i + 1],
                rgba[4 * i + 2],
                rgba[4 * i + 3],
            )
        }),
{
}

/// The corner of a pixel lies outside the disc where the squares of its
/// distances from the middle, each rounded to single precision as their sum is,
/// exceed the square of half the side; all of it is counted in half pixels. The
/// disc is the same seen from either side of the diagonal.
pub proof fn law_disc_is_measured_from_the_middle(x: nat, y: nat, size: nat)
    ensures
        ({
            let s = rounded(size);
            let left = 2 * rounded(x) - s;
            let up = 2 * rounded(y) - s;
            let a = rounded(
                if left < 0 {
                    (-left) as nat
                } else {
                    left as nat
                },
            );
            let b = rounded(
                if up < 0 {
                    (-up) as nat
                } else {
                    up as nat
                },
            );
            outside_disc(x, y, size) <==> rounded(rounded(a * a) + rounded(b * b)) > rounded(s * s)
        }),
        outside_disc(x, y, size) == outside_disc(y, x, size),
{
}

/// The square in the middle takes every pixel from its own place: as many
/// columns and rows are left out on one side as on the other, or one more on the
/// far side.
pub proof fn law_centre_keeps_pixels_in_place(
    width: u32,
    height: u32,
    rgba: Seq<u8>,
    size: u32,
    x: int,
    y: int,
    channel: int,
)
    requires
        size <= width,
        size <= height,
        0 <= x < size,
        0 <= y < size,
        0 <= channel < 4,
    ensures
        centre(width, height, rgba, size).len() == 4 * (size * size),
        centre(width, height, rgba, size)[4 * (y * size + x) + channel] == rgba[4 * (((height - size)
            / 2 + y) * width + (width - size) / 2 + x) + channel],
{
    let n = size as int;
    let i = y * n + x;
    lemma_pixel_index(x, y, n);
    let k = 4 * i + channel;
    assert(k / 4 == i && k % 4 == channel);
}

/// A pixel of a square and its place among all pixels.
proof fn lemma_pixel_index(x: int, y: int, n: int)
    requires
        0 <= x < n,
        0 <= y < n,
    ensures
        0 <= y * n + x < n * n,
        (y * n + x) / n == y,
        (y * n + x) % n == x,
{
    let i = y * n + x;
    assert(0 <= i < n * n && i / n == y && i % n == x) by (nonlinear_arith)
        requires
            0 <= x < n,
            0 <= y < n,
            i == y * n + x,
    ;
}

/// Cutting a square to a disc keeps every colour, and the alpha of every pixel
/// inside; outside the alpha is zero.
pub proof fn law_cutting_only_clears_alpha_outside(
    rgba: Seq<u8>,
    size: u32,
    x: int,
    y: int,
    channel: int,
)
    requires
        rgba.len() == 4 * (size * size),
        0 <= x < size,
        0 <= y < size,
        0 <= channel < 4,
    ensures
        cut_to_disc(rgba, size).len() == rgba.len(),
        cut_to_disc(rgba, size)[4 * (y * size + x) + channel] == if channel == 3 && outside_disc(
            x as nat,
            y as nat,
            size as nat,
        ) {
            0u8
        } else {
            rgba[4 * (y * size + x) + channel]
        },
{
    let n = size as int;
    let i = y * n + x;
    lemma_pixel_index(x, y, n);
    let k = 4 * i + channel;
    assert(k / 4 == i && k % 4 == channel);
}

/// A media image is shown as it was decoded, and bytes that are no image are
/// shown as nothing.
pub proof fn law_media_images_are_shown_as_decoded(data: Seq<u8>)
    ensures
        decoded_rgba8(data) is None ==> image_of(data) is None,
        decoded_rgba8(data) matches Some((width, height, rgba)) ==> image_of(data) == Some(
            picture_of(width as nat, height as nat, rgba),
        ),
{
}

/// An avatar is the largest square in the middle of the decoded image. Inside
/// the disc it shows what the image shows there; outside, the same colours
/// without alpha. Bytes that are no image give no avatar.
pub proof fn law_avatars_show_the_middle_of_the_image(data: Seq<u8>, x: int, y: int)
    ensures
        decoded_rgba8(data) is None ==> avatar_of(data) is None,
        decoded_rgba8(data) matches Some((width, height, rgba)) ==> {
            let size = if width < height {
                width
            } else {
                height
            };
            let avatar = avatar_of(data)->0;
            let at = 4 * (((height - size) / 2 + y) * width + (width - size) / 2 + x);
            &&& avatar_of(data) is Some
            &&& avatar.width == size
            &&& avatar.height == size
            &&& avatar.pixels.len() == size * size
            &&& 0 <= x < size && 0 <= y < size ==> {
                let c = avatar.pixels[y * size + x];
                (c.r, c.g, c.b, c.a) == premultiplied(
                    rgba[at],
                    rgba[at + 1],
                    rgba[at + 2],
                    if outside_disc(x as nat, y as nat, size as nat) {
                        0
                    } else {
                        rgba[at + 3]
                    },
                )
            }
        },
{
    if let Some((width, height, rgba)) = decoded_rgba8(data) {
        let size = square_side(width, height);
        let square = centre(width, height, rgba, size);
        let cut = cut_to_disc(square, size);
        assert(size * size >= 0) by (nonlinear_arith)
            requires
                size >= 0,
        ;
        if 0 <= x < size && 0 <= y < size {
            lemma_pixel_index(x, y, size as int);
            assert forall|channel: int| 0 <= channel < 4 implies #[trigger] cut[4 * (y * size + x)
                + channel] == (if channel == 3 && outside_disc(x as nat, y as nat, size as nat) {
                0u8
            } else {
                rgba[4 * (((height - size) / 2 + y) * width + (width - size) / 2 + x) + channel]
            }) by {
                law_centre_keeps_pixels_in_place(width, height, rgba, size, x, y, channel);
                law_cutting_only_clears_alpha_outside(square, size, x, y, channel);
            }
            let i = 4 * (y * size + x);
            assert(cut[i + 0] == cut[i]);
        }
    }
}

/// A picture shows what its parts hold.
pub proof fn law_picture_shows_its_parts(image: ColorImage)
    ensures
        image@.width == image.width,
        image@.height == image.height,
        image@.pixels == image.pixels@,
{
}

/// Taking the padding out keeps every pixel byte, row by row.
pub proof fn law_rows_keep_their_bytes(
    data: Seq<u8>,
    stride: nat,
    width: u32,
    height: u32,
    y: int,
    i: int,
)
    requires
        0 <= y < height,
        0 <= i < 4 * width,
    ensures
        rows_of(data, stride, width, height).len() == 4 * (width * height),
        rows_of(data, stride, width, height)[y * (4 * width) + i] == data[y * stride + i],
{
    let w = 4 * width as int;
    let k = y * w + i;
    assert(k / w == y && k % w == i && 0 <= k < height * w) by (nonlinear_arith)
        requires
            k == y * w + i,
            0 <= i < w,
            0 <= y < height,
    ;
    assert(height * w == 4 * (width * height)) by (nonlinear_arith)
        requires
            w == 4 * width,
    ;
}

/// Decodes a media image.
pub fn decode_image(data: &[u8]) -> (r: Option<ColorImage>)
    ensures
        (r is Some) == (image_of(data@) is Some),
        r matches Some(image) ==> image@ == image_of(data@)->0,
        r matches Some(image) ==> image.pixels@.len() == image.width * image.height,
{
    let raster = load_rgba8(data)?;
    Some(picture(&raster))
}

/// Turns a buffer into a picture.
pub fn picture(raster: &Raster) -> (image: ColorImage)
    requires
        raster.wf(),
    ensures
        image@ == picture_of(raster.width as nat, raster.height as nat, raster.rgba@),
        image.pixels@.len() == raster.width * raster.height,
        forall|i: int|
            0 <= i < image.pixels@.len() && raster.rgba@[4 * i + 3] == 0 ==> #[trigger] image.pixels@[i]
                == (Color { r: 0, g: 0, b: 0, a: 0 }),
        forall|i: int|
            0 <= i < image.pixels@.len() && raster.rgba@[4 * i + 3] == 255
                ==> #[trigger] image.pixels@[i] == (Color {
                r: raster.rgba@[4 * i],
                g: raster.rgba@[4 * i + 1],
                b: raster.rgba@[4 * i + 2],
                a: 255,
            }),
{
    let image = from_rgba_unmultiplied(
        raster.width as usize,
        raster.height as usize,
        raster.rgba.as_slice(),
    );
    assert(image.pixels@ =~= picture_of(
        raster.width as nat,
        raster.height as nat,
        raster.rgba@,
    ).pixels);
    image
}

/// The pixels of a plane whose rows are `stride` bytes apart, without what
/// stands between the rows.
pub open spec fn rows_of(data: Seq<u8>, stride: nat, width: u32, height: u32) -> Seq<u8> {
    Seq::new(
        4 * (width as nat * height as nat),
        |i: int| data[i / (4 * width) * stride + i % (4 * width)],
    )
}

/// Takes the padding out of a plane of pixels.
pub fn unpadded(data: &[u8], stride: usize, width: u32, height: u32) -> (r: Vec<u8>)
    requires
        4 * width <= stride,
        stride * height <= data@.len(),
    ensures
        r@ == rows_of(data@, stride as nat, width, height),
        r@.len() == 4 * (width * height),
        forall|y: int, i: int|
            0 <= y < height && 0 <= i < 4 * width ==> #[trigger] r@[y * (4 * width) + i]
                == data@[y * stride + i],
        // A plane without padding stays as it is.
        stride == 4 * width && stride * height == data@.len() ==> r@ == data@,
{
    let mut r: Vec<u8> = Vec::new();
    let len: usize = data.len();
    let row: usize = 4 * width as usize;
    let mut start: usize = 0;
    let mut y: u32 = 0;
    let ghost rows = rows_of(data@, stride as nat, width, height);
    let ghost (w, h, s) = (row as int, height as int, stride as int);
    assert(rows.len() == h * w) by (nonlinear_arith)
        requires
            rows.len() == 4 * (width * height),
            w == 4 * width,
            h == height,
    ;
    while y < height
        invariant
            row == 4 * width,
            row <= stride,
            len == data@.len(),
            stride * height <= len,
            (w, h, s) == (row as int, height as int, stride as int),
            rows == rows_of(data@, stride as nat, width, height),
            rows.len() == h * w,
            y <= height,
            start == y * s,
            r@ == rows.take(y * w),
            0 <= y * w <= h * w,
        decreases height - y,
    {
        proof {
            assert((y + 1) * s == y * s + s && (y + 1) * w == y * w + w && (y + 1) * s <= h * s && (y
                + 1) * w <= h * w) by (nonlinear_arith)
                requires
                    y + 1 <= h,
                    s >= 0,
                    w >= 0,
            ;
            assert(h * s == stride * height) by (nonlinear_arith)
                requires
                    h == height,
                    s == stride,
            ;
        }
        let mut i: usize = 0;
        while i < row
            invariant
                row == 4 * width,
                row <= stride,
                (w, h, s) == (row as int, height as int, stride as int),
                rows == rows_of(data@, stride as nat, width, height),
                rows.len() == h * w,
                i <= row,
                start == y * s,
                len == data@.len(),
                y * s + s <= len,
                0 <= y * w,
                y * w + w <= h * w,
                r@ == rows.take(y * w + i),
            decreases row - i,
        {
            proof {
                let k = y * w + i;
                assert(k / w == y && k % w == i) by (nonlinear_arith)
                    requires
                        k == y * w + i,
                        0 <= i < w,
                ;
                assert(rows.take(k).push(rows[k]) =~= rows.take(k + 1));
            }
            r.push(data[start + i]);
            i = i + 1;
        }
        start = start + stride;
        y = y + 1;
    }
    proof {
        assert(rows.take(h * w) =~= rows);
        assert forall|y: int, i: int|
            0 <= y < height && 0 <= i < 4 * width implies #[trigger] r@[y * (4 * width) + i]
            == data@[y * stride + i] by {
            let k = y * w + i;
            assert(k / w == y && k % w == i && 0 <= k < h * w) by (nonlinear_arith)
                requires
                    k == y * w + i,
                    0 <= i < w,
                    0 <= y < h,
            ;
        }
        if s == w && stride * height == data@.len() {
            assert(stride * height == h * w) by (nonlinear_arith)
                requires
                    h == height,
                    w == stride,
            ;
            assert forall|k: int| 0 <= k < rows.len() implies rows[k] == data@[k] by {
                assert(w > 0) by (nonlinear_arith)
                    requires
                        0 <= k < h * w,
                        w >= 0,
                ;
                vstd::arithmetic::div_mod::lemma_fundamental_div_mod(k, w);
                assert(k / w * w == w * (k / w)) by (nonlinear_arith);
            }
            assert(r@ =~= data@);
        }
    }
    r
}

/// Whether a video frame holds all of its pixels and nothing else.
pub open spec fn holds_its_pixels(frame: VideoFrame) -> bool {
    frame.data@.len() == 4 * (frame.width * frame.height)
}

/// A frame is whole with four bytes for each pixel, which is what a plane has
/// once its padding is taken out.
pub proof fn law_rows_make_whole_frames(frame: VideoFrame, plane: Seq<u8>, stride: nat)
    ensures
        frame.data@ == rows_of(plane, stride, frame.width, frame.height) ==> holds_its_pixels(
            frame,
        ),
        holds_its_pixels(frame) <==> frame.data@.len() == frame.width * frame.height * 4,
{
    assert(frame.width * frame.height * 4 == 4 * (frame.width * frame.height));
}

/// Tells whether a video frame holds all of its pixels and nothing else.
pub fn is_whole(frame: &VideoFrame) -> (r: bool)
    ensures
        r == (frame.data@.len() == 4 * (frame.width * frame.height)),
        r == holds_its_pixels(*frame),
{
    assert(frame.width * frame.height <= 0xffff_ffff * 0xffff_ffff) by (nonlinear_arith)
        requires
            frame.width <= 0xffff_ffff,
            frame.height <= 0xffff_ffff,
    ;
    let pixels: u64 = frame.width as u64 * frame.height as u64;
    frame.data.len() % 4 == 0 && frame.data.len() as u64 / 4 == pixels
}

/// Turns a video frame into a picture.
pub fn frame_picture(frame: VideoFrame) -> (image: ColorImage)
    requires
        frame.data@.len() == 4 * (frame.width * frame.height),
    ensures
        image@ == picture_of(frame.width as nat, frame.height as nat, frame.data@),
        image.pixels@.len() == frame.width * frame.height,
{
    picture(&Raster { width: frame.width, height: frame.height, rgba: frame.data })
}

/// Decodes an avatar and bakes in a circular mask.
pub fn decode_circular(data: &[u8]) -> (r: Option<ColorImage>)
    ensures
        (r is Some) == (avatar_of(data@) is Some),
        r matches Some(image) ==> image@ == avatar_of(data@)->0,
        r matches Some(image) ==> image.width == image.height && image.pixels@.len() == image.width
            * image.height,
        // Nothing outside the disc shows.
        r matches Some(image) ==> forall|x: int, y: int|
            0 <= x < image.width && 0 <= y < image.width && #[trigger] outside_disc(
                x as nat,
                y as nat,
                image.width as nat,
            ) ==> image.pixels@[y * image.width + x] == (Color { r: 0, g: 0, b: 0, a: 0 }),
{
    let raster = load_rgba8(data)?;
    let size: u32 = if raster.width <= raster.height {
        raster.width
    } else {
        raster.height
    };
    let mut square = resize_to_fill(raster, size);
    let ghost whole = square.rgba@;
    cut_circle(&mut square);
    let image = picture(&square);
    proof {
        assert forall|x: int, y: int|
            0 <= x < image.width && 0 <= y < image.width && #[trigger] outside_disc(
                x as nat,
                y as nat,
                image.width as nat,
            ) implies image.pixels@[y * image.width + x] == (Color { r: 0, g: 0, b: 0, a: 0 }) by {
            let n = size as int;
            let i = y * n + x;
            assert(0 <= i < n * n && i / n == y && i % n == x) by (nonlinear_arith)
                requires
                    0 <= x < n,
                    0 <= y < n,
                    i == y * n + x,
            ;
            let k = 4 * i + 3;
            assert(k / 4 == i && k % 4 == 3);
            assert(square.rgba@[k] == cut_to_disc(whole, size)[k]);
        }
    }
    Some(image)
}

} // verus!
