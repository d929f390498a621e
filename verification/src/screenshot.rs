//! What a capture is asked for, and the arithmetic on the pixels of one.

use vstd::prelude::*;
use crate::config::{Config, ScreenshotterView};

verus! {

/// A rectangle of the screen.
#[derive(Clone, Copy, Debug, PartialEq, Eq)]
pub struct RegionSelection {
    pub x: i16,
    pub y: i16,
    pub w: u16,
    pub h: u16,
}

/// What is to be captured.
#[derive(Clone, Copy, Debug, PartialEq, Eq)]
pub enum ScreenshotType {
    /// A rectangle of the screen.
    Region(RegionSelection),
    /// The window with the identifier given.
    Window(u32),
    /// The whole screen.
    Screen,
}

/// The distance between two coordinates.
pub open spec fn span(a: int, b: int) -> int {
    if a <= b {
        b - a
    } else {
        a - b
    }
}

/// The smaller of two coordinates.
pub open spec fn lower(a: int, b: int) -> int {
    if a <= b {
        a
    } else {
        b
    }
}

fn distance(a: i16, b: i16) -> (d: u16)
    ensures
        d == span(a as int, b as int),
{
    let wide: i32 = if a <= b {
        b as i32 - a as i32
    } else {
        a as i32 - b as i32
    };
    wide as u16
}

impl RegionSelection {
    /// The rectangle with a corner at `(x, y)`, `w` wide and `h` high.
    pub fn new(x: i16, y: i16, w: u16, h: u16) -> (region: Self)
        ensures
            region == (RegionSelection { x, y, w, h }),
    {
        RegionSelection { x, y, w, h }
    }

    /// The rectangle that a drag from `start` to `end` spans, whichever way the
    /// drag went: its corner is the lower of the two in each direction, its
    /// sides are the distances between them.
    pub fn from_drag(start: (i16, i16), end: (i16, i16)) -> (region: Self)
        ensures
            region.x == lower(start.0 as int, end.0 as int),
            region.y == lower(start.1 as int, end.1 as int),
            region.w == span(start.0 as int, end.0 as int),
            region.h == span(start.1 as int, end.1 as int),
    {
        RegionSelection {
            x: if start.0 <= end.0 {
                start.0
            } else {
                end.0
            },
            y: if start.1 <= end.1 {
                start.1
            } else {
                end.1
            },
            w: distance(start.0, end.0),
            h: distance(start.1, end.1),
        }
    }
}

/// How a capture is to be taken.
#[derive(Clone, Debug, PartialEq, Eq)]
pub enum Capture {
    /// By the outside program that the configuration names: run it with its
    /// arguments and take what it prints.
    Program { path: String, args: Vec<String> },
    /// By the built-in capture, of what was asked for.
    BuiltIn(ScreenshotType),
}

/// The mathematical content of a way to capture.
pub enum CaptureView {
    Program { path: Seq<char>, args: Seq<Seq<char>> },
    BuiltIn(ScreenshotType),
}

impl View for Capture {
    type V = CaptureView;

    open spec fn view(&self) -> CaptureView {
        match self {
            Capture::Program { path, args } => CaptureView::Program {
                path: path@,
                args: args.deep_view(),
            },
            Capture::BuiltIn(what) => CaptureView::BuiltIn(*what),
        }
    }
}

/// How a configuration has a capture taken: by its outside program where it
/// names one, whatever was asked for, and by the built-in capture otherwise.
pub open spec fn capture_of(screenshotter: Option<ScreenshotterView>, what: ScreenshotType)
    -> CaptureView {
    match screenshotter {
        Some(s) => CaptureView::Program { path: s.path, args: s.args },
        None => CaptureView::BuiltIn(what),
    }
}

fn copy_strings(list: &Vec<String>) -> (copy: Vec<String>)
    ensures
        copy.deep_view() == list.deep_view(),
{
    let mut copy: Vec<String> = Vec::new();
    let mut i: usize = 0;
    while i < list.len()
        invariant
            i <= list.len(),
            copy.len() == i,
            forall|k: int| 0 <= k < i ==> #[trigger] copy@[k]@ == list@[k]@,
        decreases list.len() - i,
    {
        copy.push(list[i].clone());
        i += 1;
    }
    assert(copy.deep_view() =~= list.deep_view());
    copy
}

impl Config {
    /// Decides how a capture is taken. Taking it is left to the caller.
    pub fn screenshot(&self, typ: ScreenshotType) -> (capture: Capture)
        ensures
            capture@ == capture_of(self@.screenshotter, typ),
    {
        match &self.screenshotter {
            Some(s) => Capture::Program { path: s.path.clone(), args: copy_strings(&s.args) },
            None => Capture::BuiltIn(typ),
        }
    }
}

/// Why a capture could not be put into an image format.
#[derive(Clone, Copy, Debug, PartialEq, Eq)]
pub enum ImageError {
    /// The width or the height is zero.
    NoPixels,
    /// There are fewer bytes than the width and the height ask for.
    TooFewBytes,
    /// The encoder refused the image.
    Encoder,
}

/// The quality that a capture is put into the JPEG format with.
pub const JPEG_QUALITY: u8 = 100;

/// The PNG file that the image crate writes for an image of the width and the
/// height given, from its pixels of red, green, blue and alpha; nothing where
/// it refuses.
pub uninterp spec fn png_encoding(data: Seq<u8>, width: u16, height: u16) -> Option<Seq<u8>>;

/// The JPEG file that the image crate writes at a quality for an image of the
/// width and the height given, from its pixels of red, green, blue and alpha;
/// nothing where it refuses.
pub uninterp spec fn jpeg_encoding(data: Seq<u8>, width: u16, height: u16, quality: u8) -> Option<
    Seq<u8>,
>;

/// Whether the pixels given can make an image of the width and the height
/// given, and if not, why not.
pub open spec fn image_error(len: int, width: u16, height: u16) -> Option<ImageError> {
    if width == 0 || height == 0 {
        Some(ImageError::NoPixels)
    } else if len < 4 * width * height {
        Some(ImageError::TooFewBytes)
    } else {
        None
    }
}

/// Builds an image with `image::RgbaImage::from_raw` and writes it in the PNG
/// format with `image::DynamicImage::write_to`, into memory. The image has
/// pixels, and the bytes given hold them all.
#[verifier::external_body]
fn encode_png(data: Vec<u8>, width: u16, height: u16) -> (encoded: Option<Vec<u8>>)
    requires
        image_error(data.len() as int, width, height) is None,
    ensures
        encoded.deep_view() == png_encoding(data@, width, height),
{
    let image = image::RgbaImage::from_raw(width as u32, height as u32, data)?;
    let mut out = std::io::Cursor::new(Vec::new());
    match image::DynamicImage::ImageRgba8(image).write_to(&mut out, image::ImageOutputFormat::Png) {
        Ok(()) => Some(out.into_inner()),
        Err(_) => None,
    }
}

/// Builds an image with `image::RgbaImage::from_raw` and writes it in the JPEG
/// format at the quality given with `image::DynamicImage::write_to`, into
/// memory. The image has pixels, and the bytes given hold them all.
#[verifier::external_body]
fn encode_jpeg(data: Vec<u8>, width: u16, height: u16, quality: u8) -> (encoded: Option<Vec<u8>>)
    requires
        image_error(data.len() as int, width, height) is None,
        1 <= quality <= 100,
    ensures
        encoded.deep_view() == jpeg_encoding(data@, width, height, quality),
{
    let image = image::RgbaImage::from_raw(width as u32, height as u32, data)?;
    let mut out = std::io::Cursor::new(Vec::new());
    let format = image::ImageOutputFormat::Jpeg(quality);
    match image::DynamicImage::ImageRgba8(image).write_to(&mut out, format) {
        Ok(()) => Some(out.into_inner()),
        Err(_) => None,
    }
}

fn check_image(len: usize, width: u16, height: u16) -> (error: Option<ImageError>)
    ensures
        error == image_error(len as int, width, height),
{
    if width == 0 || height == 0 {
        return Some(ImageError::NoPixels);
    }
    assert(4 * width * height <= 4 * 65535 * 65535) by (nonlinear_arith)
        requires
            width <= 65535,
            height <= 65535,
    ;
    assert(4 * width <= 4 * 65535);
    let needed: u64 = 4 * (width as u64) * (height as u64);
    if (len as u64) < needed {
        Some(ImageError::TooFewBytes)
    } else {
        None
    }
}

/// The file that an encoder gave, or that it gave none.
pub open spec fn encoded_or_refused(encoded: Option<Seq<u8>>) -> Result<Seq<u8>, ImageError> {
    match encoded {
        Some(bytes) => Ok(bytes),
        None => Err(ImageError::Encoder),
    }
}

/// What comes of putting pixels into the PNG format.
pub open spec fn png_of(data: Seq<u8>, width: u16, height: u16) -> Result<Seq<u8>, ImageError> {
    match image_error(data.len() as int, width, height) {
        Some(e) => Err(e),
        None => encoded_or_refused(png_encoding(data, width, height)),
    }
}

/// What comes of putting pixels into the JPEG format.
pub open spec fn jpeg_of(data: Seq<u8>, width: u16, height: u16) -> Result<Seq<u8>, ImageError> {
    match image_error(data.len() as int, width, height) {
        Some(e) => Err(e),
        None => encoded_or_refused(jpeg_encoding(data, width, height, JPEG_QUALITY)),
    }
}

/// The file that an encoder gave, or the error that it gave none.
pub fn encoded_file(encoded: Option<Vec<u8>>) -> (file: Result<Vec<u8>, ImageError>)
    ensures
        match file {
            Ok(bytes) => encoded_or_refused(encoded.deep_view()) == Ok::<Seq<u8>, ImageError>(
                bytes@,
            ),
            Err(e) => encoded_or_refused(encoded.deep_view()) == Err::<Seq<u8>, ImageError>(e),
        },
{
    match encoded {
        Some(bytes) => {
            assert(bytes.deep_view() =~= bytes@);
            Ok(bytes)
        },
        None => Err(ImageError::Encoder),
    }
}

/// Puts the pixels of a capture, four bytes of red, green, blue and alpha
/// each, into the PNG format. The bytes hold every pixel of the width and the
/// height given.
pub fn as_png(data: Vec<u8>, width: u16, height: u16) -> (file: Result<Vec<u8>, ImageError>)
    requires
        data.len() >= 4 * width * height,
    ensures
        match file {
            Ok(bytes) => png_of(data@, width, height) == Ok::<Seq<u8>, ImageError>(bytes@),
            Err(e) => png_of(data@, width, height) == Err::<Seq<u8>, ImageError>(e),
        },
        !(file matches Err(ImageError::TooFewBytes)),
{
    match check_image(data.len(), width, height) {
        Some(e) => Err(e),
        None => encoded_file(encode_png(data, width, height)),
    }
}

/// Puts the pixels of a capture, four bytes of red, green, blue and alpha
/// each, into the JPEG format, at the highest quality. The bytes hold every
/// pixel of the width and the height given.
pub fn as_jpeg(data: Vec<u8>, width: u16, height: u16) -> (file: Result<Vec<u8>, ImageError>)
    requires
        data.len() >= 4 * width * height,
    ensures
        match file {
            Ok(bytes) => jpeg_of(data@, width, height) == Ok::<Seq<u8>, ImageError>(bytes@),
            Err(e) => jpeg_of(data@, width, height) == Err::<Seq<u8>, ImageError>(e),
        },
        !(file matches Err(ImageError::TooFewBytes)),
{
    match check_image(data.len(), width, height) {
        Some(e) => Err(e),
        None => encoded_file(encode_jpeg(data, width, height, JPEG_QUALITY)),
    }
}

/// Whether the bytes hold every pixel of an image of the width and the height
/// given, four bytes each.
pub fn holds_pixels(len: usize, width: u16, height: u16) -> (enough: bool)
    ensures
        enough == (len >= 4 * width * height),
{
    assert(4 * width * height <= 4 * 65535 * 65535) by (nonlinear_arith)
        requires
            width <= 65535,
            height <= 65535,
    ;
    assert(4 * width <= 4 * 65535);
    let needed: u64 = 4 * (width as u64) * (height as u64);
    len as u64 >= needed
}

/// Puts pixels into the PNG format where there are enough of them, and says
/// so where there are too few.
pub fn checked_as_png(data: Vec<u8>, width: u16, height: u16) -> (file: Result<
    Vec<u8>,
    ImageError,
>)
    ensures
        match file {
            Ok(bytes) => png_of(data@, width, height) == Ok::<Seq<u8>, ImageError>(bytes@),
            Err(e) => png_of(data@, width, height) == Err::<Seq<u8>, ImageError>(e),
        },
{
    if holds_pixels(data.len(), width, height) {
        as_png(data, width, height)
    } else {
        assert(width != 0 && height != 0) by (nonlinear_arith)
            requires
                4 * width * height > 0,
        ;
        Err(ImageError::TooFewBytes)
    }
}

/// Puts pixels into the JPEG format where there are enough of them, and says
/// so where there are too few.
pub fn checked_as_jpeg(data: Vec<u8>, width: u16, height: u16) -> (file: Result<
    Vec<u8>,
    ImageError,
>)
    ensures
        match file {
            Ok(bytes) => jpeg_of(data@, width, height) == Ok::<Seq<u8>, ImageError>(bytes@),
            Err(e) => jpeg_of(data@, width, height) == Err::<Seq<u8>, ImageError>(e),
        },
{
    if holds_pixels(data.len(), width, height) {
        as_jpeg(data, width, height)
    } else {
        assert(width != 0 && height != 0) by (nonlinear_arith)
            requires
                4 * width * height > 0,
        ;
        Err(ImageError::TooFewBytes)
    }
}

/// The number of whole pixels of four bytes in `len` bytes.
pub open spec fn pixel_count(len: int) -> int {
    len / 4
}

/// The pixels of `data` with the first and the third byte of each exchanged:
/// blue, green, red, alpha becomes red, green, blue, alpha. Bytes after the last
/// whole pixel are left out.
pub open spec fn swapped(data: Seq<u8>) -> Seq<u8> {
    Seq::new(
        (4 * pixel_count(data.len() as int)) as nat,
        |k: int|
            if k % 4 == 0 {
                data[k + 2]
            } else if k % 4 == 2 {
                data[k - 2]
            } else {
                data[k]
            },
    )
}

/// Turns pixels of blue, green, red, alpha into pixels of red, green, blue,
/// alpha.
pub fn bgra_to_rgba(data: &[u8]) -> (out: Vec<u8>)
    ensures
        out@ == swapped(data@),
{
    let mut out: Vec<u8> = Vec::new();
    let mut i: usize = 0;
    while data.len() - i >= 4
        invariant
            i <= data.len(),
            i % 4 == 0,
            out@.len() == i,
            forall|k: int| 0 <= k < i ==> #[trigger] out@[k] == swapped(data@)[k],
        decreases data.len() - i,
    {
        out.push(data[i + 2]);
        out.push(data[i + 1]);
        out.push(data[i]);
        out.push(data[i + 3]);
        i += 4;
    }
    assert(out@ =~= swapped(data@));
    out
}

/// The rows of an image packed one after the other: `height` rows of `row`
/// bytes each, the row numbered `y` taken from position `y * stride` of
/// `pixels`.
pub open spec fn packed(pixels: Seq<u8>, row: int, height: int, stride: int) -> Seq<u8> {
    Seq::new((row * height) as nat, |k: int| pixels[(k / row) * stride + k % row])
}

/// The rows fit: each row lies inside `pixels`.
pub open spec fn rows_fit(len: int, row: int, height: int, stride: int) -> bool {
    height == 0 || row == 0 || (height - 1) * stride + row <= len
}

/// Packs the rows of an image whose rows lie `stride` bytes apart, leaving out
/// what stands between one row and the next. `None` where a row would reach
/// beyond the pixels given, or the packed image would not fit the machine's
/// word.
pub fn pack_rows(pixels: &[u8], row: usize, height: usize, stride: usize) -> (out: Option<Vec<u8>>)
    ensures
        out is Some <==> rows_fit(pixels.len() as int, row as int, height as int, stride as int)
            && row * height <= usize::MAX,
        out is Some ==> out->0@ == packed(pixels@, row as int, height as int, stride as int),
{
    let mut out: Vec<u8> = Vec::new();
    if height == 0 || row == 0 {
        assert(row * height == 0) by (nonlinear_arith)
            requires
                height == 0 || row == 0,
        ;
        assert(out@ =~= packed(pixels@, row as int, height as int, stride as int));
        return Some(out);
    }
    let total: usize = match row.checked_mul(height) {
        Some(t) => t,
        None => {
            return None;
        },
    };
    let last: usize = match (height - 1).checked_mul(stride) {
        Some(l) => l,
        None => {
            assert((height - 1) * stride + row > pixels.len());
            return None;
        },
    };
    if last > pixels.len() || pixels.len() - last < row {
        return None;
    }
    let mut y: usize = 0;
    while y < height
        invariant
            y <= height,
            row > 0,
            total == row * height,
            last == (height - 1) * stride,
            last + row <= pixels.len(),
            out@.len() == row * y,
            forall|k: int|
                0 <= k < row * y ==> #[trigger] out@[k] == pixels@[(k / (row as int)) * stride + k
                    % (row as int)],
        decreases height - y,
    {
        assert(y * stride <= (height - 1) * stride) by (nonlinear_arith)
            requires
                y <= height - 1,
        ;
        let base: usize = y * stride;
        assert(row * (y + 1) == row * y + row) by (nonlinear_arith);
        assert(row * (y + 1) <= row * height) by (nonlinear_arith)
            requires
                y + 1 <= height,
        ;
        let mut j: usize = 0;
        while j < row
            invariant
                j <= row,
                row > 0,
                y < height,
                base == y * stride,
                base + row <= pixels.len(),
                row * y + row <= usize::MAX,
                out@.len() == row * y + j,
                forall|k: int|
                    0 <= k < row * y + j ==> #[trigger] out@[k] == pixels@[(k / (row as int))
                        * stride + k % (row as int)],
            decreases row - j,
        {
            let ghost k = row * y + j;
            assert(k / (row as int) == y && k % (row as int) == j) by (nonlinear_arith)
                requires
                    k == row * y + j,
                    0 <= j < row,
            ;
            out.push(pixels[base + j]);
            j += 1;
        }
        y += 1;
    }
    assert(out@ =~= packed(pixels@, row as int, height as int, stride as int));
    Some(out)
}

/// A rectangle of the screen by its edges.
#[derive(Clone, Copy, Debug, PartialEq, Eq)]
pub struct Edges {
    pub left: i32,
    pub top: i32,
    pub right: i32,
    pub bottom: i32,
}

/// The width and the height of a bitmap, and the number of bytes that its
/// pixels take at four bytes each.
#[derive(Clone, Copy, Debug, PartialEq, Eq)]
pub struct Extent {
    pub width: i32,
    pub height: i32,
    pub bytes: usize,
}

/// The extent of the bitmap that holds a rectangle: its sides are the
/// distances between the edges, whichever way round the edges are given.
pub open spec fn extent_of(edges: Edges) -> (int, int, int) {
    let width = span(edges.left as int, edges.right as int);
    let height = span(edges.top as int, edges.bottom as int);
    (width, height, 4 * width * height)
}

/// Measures the bitmap that holds a rectangle. `None` where a side or the
/// number of bytes does not fit the machine's word.
pub fn extent(edges: Edges) -> (measured: Option<Extent>)
    ensures
        measured is Some <==> extent_of(edges).0 <= i32::MAX && extent_of(edges).1 <= i32::MAX
            && extent_of(edges).2 <= usize::MAX,
        measured is Some ==> (
            measured->0.width as int,
            measured->0.height as int,
            measured->0.bytes as int,
        ) == extent_of(edges),
{
    let width: i64 = if edges.left <= edges.right {
        edges.right as i64 - edges.left as i64
    } else {
        edges.left as i64 - edges.right as i64
    };
    let height: i64 = if edges.top <= edges.bottom {
        edges.bottom as i64 - edges.top as i64
    } else {
        edges.top as i64 - edges.bottom as i64
    };
    if width > 2147483647 || height > 2147483647 {
        return None;
    }
    assert(4 * width * height <= 4 * 2147483647 * 2147483647) by (nonlinear_arith)
        requires
            0 <= width <= 2147483647,
            0 <= height <= 2147483647,
    ;
    assert(0 <= 4 * width * height) by (nonlinear_arith)
        requires
            0 <= width,
            0 <= height,
    ;
    assert(4 * width <= 4 * 2147483647);
    let bytes: u64 = 4 * (width as u64) * (height as u64);
    if bytes > usize::MAX as u64 {
        return None;
    }
    Some(Extent { width: width as i32, height: height as i32, bytes: bytes as usize })
}

} // verus!
