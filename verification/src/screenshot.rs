//! Screenshot backends, the plausibility check of a captured frame and the choice
//! between the two capture paths.
use vstd::prelude::*;
use crate::text::{chars_eq, chars_to_string, extend_str, owned, str_chars};
use crate::window::FrameRect;

verus! {

// ---------------------------------------------------------------------------
// Decoding captured frames
// ---------------------------------------------------------------------------

/// Decoded RGBA pixels, four bytes per pixel, row by row.
#[derive(Debug, Clone)]
pub struct RgbaPixels {
    pub width: u32,
    pub height: u32,
    pub data: Vec<u8>,
}

/// The width, height and RGBA bytes that `image` decodes from encoded image bytes;
/// `None` where they do not decode.
pub uninterp spec fn decoded_rgba(bytes: Seq<u8>) -> Option<(u32, u32, Seq<u8>)>;

/// `image::load_from_memory(..)` then `to_rgba8()`: decodes encoded image bytes into
/// RGBA pixels (a buffer of four bytes per pixel). The decoder's error is dropped.
#[verifier::external_body]
fn decode_rgba(bytes: &[u8]) -> (r: Option<RgbaPixels>)
    ensures
        match r {
            Some(p) => decoded_rgba(bytes@) == Some((p.width, p.height, p.data@)) && p.data@.len()
                == 4 * p.width * p.height,
            None => decoded_rgba(bytes@) is None,
        },
{
    match image::load_from_memory(bytes) {
        Ok(image) => {
            let rgba = image.to_rgba8();
            let (width, height) = rgba.dimensions();
            Some(RgbaPixels { width, height, data: rgba.into_raw() })
        },
        Err(_) => None,
    }
}

pub open spec fn abs_diff(a: u8, b: u8) -> int {
    if a >= b {
        a - b
    } else {
        b - a
    }
}

/// How far pixel `k` is from the first pixel: the sum of the channel differences.
pub open spec fn pixel_delta(data: Seq<u8>, k: int) -> int {
    abs_diff(data[4 * k], data[0]) + abs_diff(data[4 * k + 1], data[1]) + abs_diff(
        data[4 * k + 2],
        data[2],
    ) + abs_diff(data[4 * k + 3], data[3])
}

/// The sampling walk over every `stride`-th pixel from `k` on.
pub open spec fn plausible_scan(
    data: Seq<u8>,
    npix: int,
    stride: int,
    k: int,
    sampled: int,
    different: int,
) -> bool
    decreases (if k < npix { npix - k } else { 0 }),
{
    if 0 < stride && k < npix {
        let d2 = different + if pixel_delta(data, k) > 12 {
            1int
        } else {
            0int
        };
        if d2 >= 8 {
            true
        } else {
            plausible_scan(data, npix, stride, k + stride, sampled + 1, d2)
        }
    } else {
        sampled < 32 || different >= 2
    }
}

/// Whether a captured frame looks like real content: it decodes, has pixels, and among
/// about 4096 sampled pixels at least eight (or, where few are sampled, two) differ
/// from the first by more than 12.
pub open spec fn plausible_spec(bytes: Seq<u8>) -> bool {
    match decoded_rgba(bytes) {
        None => false,
        Some((w, h, data)) => {
            let npix = w * h;
            if npix == 0 {
                false
            } else {
                let stride = if npix / 4096 > 1 {
                    npix / 4096
                } else {
                    1
                };
                plausible_scan(data, npix, stride, 0, 1, 0)
            }
        },
    }
}

fn channel_diff(a: u8, b: u8) -> (d: u16)
    ensures
        d == abs_diff(a, b),
{
    if a >= b {
        (a - b) as u16
    } else {
        (b - a) as u16
    }
}

/// Whether a captured frame looks like real content.
pub fn frame_is_plausible(png_bytes: &[u8]) -> (r: bool)
    ensures
        r == plausible_spec(png_bytes@),
{
    let pixels = match decode_rgba(png_bytes) {
        None => {
            return false;
        },
        Some(p) => p,
    };
    let data_len = pixels.data.len();
    let npix: usize = data_len / 4;
    proof {
        assert(npix == pixels.width * pixels.height && data_len == 4 * npix) by (nonlinear_arith)
            requires
                data_len == 4 * pixels.width * pixels.height,
                npix == data_len / 4,
        ;
    }
    if npix == 0 {
        return false;
    }
    let stride: usize = if npix / 4096 > 1 { npix / 4096 } else { 1 };
    let mut sampled: usize = 1;
    let mut different: usize = 0;
    let mut k: usize = 0;
    while k < npix
        invariant
            npix == pixels.width * pixels.height,
            pixels.data@.len() == 4 * npix,
            pixels.data@.len() <= usize::MAX,
            1 <= stride <= npix,
            k <= npix,
            sampled <= k + 1,
            different < 8,
            plausible_spec(png_bytes@) == plausible_scan(
                pixels.data@,
                npix as int,
                stride as int,
                k as int,
                sampled as int,
                different as int,
            ),
        decreases npix - k,
    {
        let d = channel_diff(pixels.data[4 * k], pixels.data[0]) + channel_diff(
            pixels.data[4 * k + 1],
            pixels.data[1],
        ) + channel_diff(pixels.data[4 * k + 2], pixels.data[2]) + channel_diff(
            pixels.data[4 * k + 3],
            pixels.data[3],
        );
        if d > 12 {
            different = different + 1;
        }
        if different >= 8 {
            return true;
        }
        sampled = sampled + 1;
        if k > npix - stride {
            proof {
                let dn = different as int;
                assert(plausible_scan(pixels.data@, npix as int, stride as int, k + stride, sampled as int, dn)
                    == plausible_scan(pixels.data@, npix as int, stride as int, npix as int, sampled as int, dn));
            }
            k = npix;
        } else {
            k = k + stride;
        }
    }
    sampled < 32 || different >= 2
}

// ---------------------------------------------------------------------------
// Backends
// ---------------------------------------------------------------------------

/// A screenshot as PNG bytes.
#[derive(Debug, Clone)]
pub struct CapturedScreenshot {
    pub bytes: Vec<u8>,
    pub width: u32,
    pub height: u32,
    pub backend: String,
}

/// Why a screenshot could not be taken.
#[derive(Debug)]
pub enum ScreenshotError {
    Disabled,
    Unsupported,
    InvalidSize,
    Timeout,
    InvalidFrame(String),
    CaptureFailed(String),
    AllBackendsFailed { wgc: Box<ScreenshotError>, gdi: Box<ScreenshotError> },
    Image(String),
}

#[derive(Debug, Clone, Copy, PartialEq, Eq, Structural)]
pub enum ScreenshotBackend {
    Off,
    Auto,
    Wgc,
    Gdi,
}

/// A character in lower case, for ASCII letters.
pub open spec fn ascii_lower(c: char) -> char {
    if 'A' <= c <= 'Z' {
        ((c as u8) + 32) as char
    } else {
        c
    }
}

/// The backend that a configuration value names, ignoring ASCII case; unknown names
/// mean `Auto`.
pub open spec fn backend_of(value: Seq<char>) -> ScreenshotBackend {
    let v = value.map_values(|c: char| ascii_lower(c));
    if v == "off"@ {
        ScreenshotBackend::Off
    } else if v == "gdi"@ || v == "win32-gdi"@ {
        ScreenshotBackend::Gdi
    } else if v == "wgc"@ || v == "windows-graphics-capture"@ {
        ScreenshotBackend::Wgc
    } else {
        ScreenshotBackend::Auto
    }
}

fn lower_char(c: char) -> (r: char)
    ensures
        r == ascii_lower(c),
{
    if 'A' <= c && c <= 'Z' {
        ((c as u8) + 32) as char
    } else {
        c
    }
}

fn lower_ascii(s: &str) -> (v: Vec<char>)
    ensures
        v@ == s@.map_values(|c: char| ascii_lower(c)),
{
    let chars = str_chars(s);
    let mut v: Vec<char> = Vec::new();
    let mut i: usize = 0;
    while i < chars.len()
        invariant
            i <= chars@.len(),
            chars@ == s@,
            v@ == s@.take(i as int).map_values(|c: char| ascii_lower(c)),
        decreases chars@.len() - i,
    {
        v.push(lower_char(chars[i]));
        assert(s@.take(i as int + 1).map_values(|c: char| ascii_lower(c)) =~= s@.take(
            i as int,
        ).map_values(|c: char| ascii_lower(c)).push(ascii_lower(s@[i as int])));
        i = i + 1;
    }
    assert(s@.take(s@.len() as int) =~= s@);
    v
}

fn lower_is(v: &Vec<char>, lit: &str) -> (r: bool)
    ensures
        r == (v@ == lit@),
{
    let l = str_chars(lit);
    chars_eq(v, &l)
}

impl ScreenshotBackend {
    pub fn from_config(value: &str) -> (b: Self)
        ensures
            b == backend_of(value@),
    {
        let v = lower_ascii(value);
        if lower_is(&v, "off") {
            ScreenshotBackend::Off
        } else if lower_is(&v, "gdi") || lower_is(&v, "win32-gdi") {
            ScreenshotBackend::Gdi
        } else if lower_is(&v, "wgc") || lower_is(&v, "windows-graphics-capture") {
            ScreenshotBackend::Wgc
        } else {
            ScreenshotBackend::Auto
        }
    }
}

/// Takes screenshots through the configured backend.
#[derive(Debug, Clone)]
pub struct ScreenshotManager {
    pub backend: ScreenshotBackend,
}

/// What capturing a window takes: fail at once, or run one of the capture paths.
#[derive(Debug)]
pub enum CapturePlan {
    Fail(ScreenshotError),
    Gdi,
    Wgc,
    Auto,
}

impl ScreenshotManager {
    pub fn new(backend: &str) -> (m: Self)
        ensures
            m.backend == backend_of(backend@),
    {
        ScreenshotManager { backend: ScreenshotBackend::from_config(backend) }
    }

    pub fn enabled(&self) -> (r: bool)
        ensures
            r == (self.backend != ScreenshotBackend::Off),
    {
        self.backend != ScreenshotBackend::Off
    }

    /// How a window is captured with this backend.
    pub fn capture_window(&self) -> (plan: CapturePlan)
        ensures
            match self.backend {
                ScreenshotBackend::Off => plan matches CapturePlan::Fail(ScreenshotError::Disabled),
                ScreenshotBackend::Gdi => plan matches CapturePlan::Gdi,
                ScreenshotBackend::Wgc => plan matches CapturePlan::Wgc,
                ScreenshotBackend::Auto => plan matches CapturePlan::Auto,
            },
    {
        match self.backend {
            ScreenshotBackend::Off => CapturePlan::Fail(ScreenshotError::Disabled),
            ScreenshotBackend::Gdi => CapturePlan::Gdi,
            ScreenshotBackend::Wgc => CapturePlan::Wgc,
            ScreenshotBackend::Auto => CapturePlan::Auto,
        }
    }
}

/// The next step of an automatic capture.
#[derive(Debug)]
pub enum AutoCapture {
    /// The GDI capture is needed to decide.
    NeedGdi,
    Done(Result<CapturedScreenshot, ScreenshotError>),
}

/// Automatic capture: Windows Graphics Capture first; where its frame is not plausible
/// or it fails, GDI; a plausible GDI frame wins, else the WGC frame stands; where both
/// fail, both errors are reported. `gdi` is the GDI result where it was taken.
pub fn capture_auto(
    wgc: Result<CapturedScreenshot, ScreenshotError>,
    gdi: Option<Result<CapturedScreenshot, ScreenshotError>>,
) -> (r: AutoCapture)
    ensures
        match wgc {
            Ok(w) => if plausible_spec(w.bytes@) {
                r == AutoCapture::Done(Ok(w))
            } else {
                match gdi {
                    None => r matches AutoCapture::NeedGdi,
                    Some(Ok(g)) => if plausible_spec(g.bytes@) {
                        r == AutoCapture::Done(Ok(g))
                    } else {
                        r == AutoCapture::Done(Ok(w))
                    },
                    Some(Err(_)) => r == AutoCapture::Done(Ok(w)),
                }
            },
            Err(we) => match gdi {
                None => r matches AutoCapture::NeedGdi,
                Some(Ok(g)) => r == AutoCapture::Done(Ok(g)),
                Some(Err(ge)) => r == AutoCapture::Done(
                    Err(ScreenshotError::AllBackendsFailed { wgc: Box::new(we), gdi: Box::new(ge) }),
                ),
            },
        },
{
    match wgc {
        Ok(w) => {
            if frame_is_plausible(&w.bytes) {
                return AutoCapture::Done(Ok(w));
            }
            match gdi {
                None => AutoCapture::NeedGdi,
                Some(Ok(g)) => {
                    if frame_is_plausible(&g.bytes) {
                        AutoCapture::Done(Ok(g))
                    } else {
                        AutoCapture::Done(Ok(w))
                    }
                },
                Some(Err(_)) => AutoCapture::Done(Ok(w)),
            }
        },
        Err(we) => match gdi {
            None => AutoCapture::NeedGdi,
            Some(Ok(g)) => AutoCapture::Done(Ok(g)),
            Some(Err(ge)) => AutoCapture::Done(
                Err(ScreenshotError::AllBackendsFailed { wgc: Box::new(we), gdi: Box::new(ge) }),
            ),
        },
    }
}

// ---------------------------------------------------------------------------
// Frames to PNG
// ---------------------------------------------------------------------------

/// The PNG that `image` writes for an RGBA image of the given size; `None` where the
/// encoder fails.
pub uninterp spec fn png_encoding(width: u32, height: u32, rgba: Seq<u8>) -> Option<Seq<u8>>;

/// `image::RgbaImage::from_raw` then `DynamicImage::write_to` in PNG format, for a
/// buffer of exactly four bytes per pixel (`from_raw` accepts it; the PNG encoder
/// asserts that length). The encoder's error is kept as text.
#[verifier::external_body]
fn encode_png(width: u32, height: u32, rgba: Vec<u8>) -> (r: Result<Vec<u8>, ScreenshotError>)
    requires
        rgba@.len() == 4 * width * height,
    ensures
        match r {
            Ok(b) => png_encoding(width, height, rgba@) == Some(b@),
            Err(ScreenshotError::Image(_)) => png_encoding(width, height, rgba@) is None,
            Err(_) => false,
        },
{
    let Some(image) = image::RgbaImage::from_raw(width, height, rgba) else {
        return Err(ScreenshotError::InvalidSize);
    };
    let mut cursor = std::io::Cursor::new(Vec::new());
    match image::DynamicImage::ImageRgba8(image).write_to(&mut cursor, image::ImageFormat::Png) {
        Ok(()) => Ok(cursor.into_inner()),
        Err(e) => Err(ScreenshotError::Image(e.to_string())),
    }
}

/// Byte `i` of a buffer of four-byte BGRA pixels turned into RGBA: blue and red trade
/// places and alpha becomes opaque; a trailing partial pixel stays as it was.
pub open spec fn rgba_byte_of_bgra(src: Seq<u8>, i: int) -> u8 {
    let q = i % 4;
    if i - q + 4 > src.len() {
        src[i]
    } else if q == 0 {
        src[i + 2]
    } else if q == 2 {
        src[i - 2]
    } else if q == 3 {
        255
    } else {
        src[i]
    }
}

/// Turns BGRA pixels into RGBA in place.
pub fn bgra_to_rgba_in_place(pixels: &mut Vec<u8>)
    ensures
        final(pixels)@.len() == old(pixels)@.len(),
        forall|i: int| 0 <= i < old(pixels)@.len() ==> #[trigger] final(pixels)@[i] == rgba_byte_of_bgra(old(pixels)@, i),
{
    let n = pixels.len();
    let mut k: usize = 0;
    while n >= 4 && k <= n - 4
        invariant
            pixels@.len() == n == old(pixels)@.len(),
            k % 4 == 0,
            k <= n,
            forall|i: int| 0 <= i < k ==> #[trigger] pixels@[i] == rgba_byte_of_bgra(old(pixels)@, i),
            forall|i: int| k <= i < n ==> #[trigger] pixels@[i] == old(pixels)@[i],
        decreases n - k,
    {
        let b = pixels[k];
        let r = pixels[k + 2];
        pixels.set(k, r);
        pixels.set(k + 2, b);
        pixels.set(k + 3, 255);
        assert forall|i: int| 0 <= i < k + 4 implies #[trigger] pixels@[i] == rgba_byte_of_bgra(old(pixels)@, i) by {
            if i >= k {
                assert(i % 4 == i - k);
            }
        }
        k = k + 4;
    }
    assert forall|i: int| k <= i < n implies #[trigger] pixels@[i] == rgba_byte_of_bgra(old(pixels)@, i) by {
        assert(i - i % 4 + 4 > n);
    }
}

/// The RGBA bytes of a `width` x `height` frame mapped as BGRA rows `row_pitch` bytes
/// apart: byte `c` of pixel `x` of row `y`.
pub open spec fn frame_rgba_byte(src: Seq<u8>, row_pitch: int, y: int, x: int, c: int) -> u8 {
    let base = y * row_pitch + 4 * x;
    if c == 0 {
        src[base + 2]
    } else if c == 1 {
        src[base + 1]
    } else if c == 2 {
        src[base]
    } else {
        255
    }
}

/// Whether `out` holds the frame's pixels as RGBA rows of `4 * width` bytes.
pub open spec fn is_frame_rgba(out: Seq<u8>, src: Seq<u8>, row_pitch: int, width: int, height: int) -> bool {
    &&& out.len() == 4 * width * height
    &&& forall|y: int, x: int, c: int|
        0 <= y < height && 0 <= x < width && 0 <= c < 4 ==> #[trigger] out[y * (4 * width) + 4 * x + c]
            == frame_rgba_byte(src, row_pitch, y, x, c)
}

/// The RGBA rows of a mapped frame: the one run of bytes that holds its pixels so.
pub open spec fn frame_rgba(src: Seq<u8>, row_pitch: int, width: int, height: int) -> Seq<u8> {
    choose|out: Seq<u8>| is_frame_rgba(out, src, row_pitch, width, height)
}

/// Two runs that both hold a frame's pixels are the same run.
proof fn lemma_frame_rgba_unique(a: Seq<u8>, b: Seq<u8>, src: Seq<u8>, row_pitch: int, width: int, height: int)
    requires
        0 <= width,
        0 <= height,
        is_frame_rgba(a, src, row_pitch, width, height),
    ensures
        is_frame_rgba(b, src, row_pitch, width, height) ==> a == b,
        frame_rgba(src, row_pitch, width, height) == a,
{
    assert forall|b: Seq<u8>| is_frame_rgba(b, src, row_pitch, width, height) implies a == b by {
        assert forall|i: int| 0 <= i < a.len() implies a[i] == b[i] by {
            let w4 = 4 * width;
            assert(width > 0) by (nonlinear_arith)
                requires
                    0 <= i < 4 * width * height,
                    0 <= height,
            ;
            let y = i / w4;
            let r = i % w4;
            let x = r / 4;
            let c = r % 4;
            assert(i == y * w4 + r && 0 <= r < w4) by (nonlinear_arith)
                requires
                    w4 > 0,
                    y == i / w4,
                    r == i % w4,
            ;
            assert(r == 4 * x + c && 0 <= c < 4 && 0 <= x < width) by (nonlinear_arith)
                requires
                    0 <= r < w4,
                    w4 == 4 * width,
                    x == r / 4,
                    c == r % 4,
            ;
            assert(0 <= y < height) by (nonlinear_arith)
                requires
                    0 <= i < w4 * height,
                    i == y * w4 + r,
                    0 <= r < w4,
                    w4 > 0,
            ;
            assert(a[y * (4 * width) + 4 * x + c] == frame_rgba_byte(src, row_pitch, y, x, c));
            assert(b[y * (4 * width) + 4 * x + c] == frame_rgba_byte(src, row_pitch, y, x, c));
        }
        assert(a =~= b);
    }
}

/// Copying a mapped BGRA frame into RGBA rows: pixel `x` of row `y` is read from the
/// four bytes at `y * row_pitch + 4 * x`, its blue and red trade places and its alpha
/// becomes opaque; each output row is `4 * width` bytes.
pub proof fn lemma_frame_rgba_layout(out: Seq<u8>, src: Seq<u8>, row_pitch: int, width: int, height: int)
    requires
        is_frame_rgba(out, src, row_pitch, width, height),
    ensures
        out.len() == 4 * width * height,
        forall|y: int, x: int|
            0 <= y < height && 0 <= x < width ==> {
                &&& #[trigger] out[y * (4 * width) + 4 * x] == src[y * row_pitch + 4 * x + 2]
                &&& out[y * (4 * width) + 4 * x + 1] == src[y * row_pitch + 4 * x + 1]
                &&& out[y * (4 * width) + 4 * x + 2] == src[y * row_pitch + 4 * x]
                &&& out[y * (4 * width) + 4 * x + 3] == 255
            },
{
    assert forall|y: int, x: int| 0 <= y < height && 0 <= x < width implies {
        &&& #[trigger] out[y * (4 * width) + 4 * x] == src[y * row_pitch + 4 * x + 2]
        &&& out[y * (4 * width) + 4 * x + 1] == src[y * row_pitch + 4 * x + 1]
        &&& out[y * (4 * width) + 4 * x + 2] == src[y * row_pitch + 4 * x]
        &&& out[y * (4 * width) + 4 * x + 3] == 255
    } by {
        assert(out[y * (4 * width) + 4 * x + 0] == frame_rgba_byte(src, row_pitch, y, x, 0));
        assert(out[y * (4 * width) + 4 * x + 1] == frame_rgba_byte(src, row_pitch, y, x, 1));
        assert(out[y * (4 * width) + 4 * x + 2] == frame_rgba_byte(src, row_pitch, y, x, 2));
        assert(out[y * (4 * width) + 4 * x + 3] == frame_rgba_byte(src, row_pitch, y, x, 3));
    }
}

proof fn lemma_row_index(y: int, x: int, c: int, w: int, yy: int)
    requires
        0 <= y,
        0 <= x < w,
        0 <= c < 4,
        y < yy,
    ensures
        y * (4 * w) + 4 * x + c < yy * (4 * w),
        0 <= y * (4 * w) + 4 * x + c,
{
    assert(y * (4 * w) + 4 * w <= yy * (4 * w)) by (nonlinear_arith)
        requires
            y < yy,
            0 <= w,
    ;
    assert(0 <= y * (4 * w)) by (nonlinear_arith)
        requires
            0 <= y,
            0 <= w,
    ;
}

/// The RGBA rows of a mapped BGRA frame. `source` is the mapped memory, `None` where
/// the mapping gave no pointer.
pub fn copy_bgra_to_rgba(source: Option<&[u8]>, row_pitch: usize, width: u32, height: u32) -> (r: Result<
    Vec<u8>,
    ScreenshotError,
>)
    requires
        source matches Some(s) ==> height > 0 ==> (height - 1) * row_pitch + 4 * width <= s@.len(),
    ensures
        source is None ==> (r matches Err(ScreenshotError::InvalidFrame(m)) && m@ == "mapped texture pointer was null"@),
        source is Some && 4 * width > usize::MAX ==> (r matches Err(ScreenshotError::InvalidSize)),
        source matches Some(s) ==> 4 * width <= usize::MAX ==> {
            &&& row_pitch < 4 * width ==> (r matches Err(ScreenshotError::InvalidFrame(m)) && m@
                == "mapped texture row pitch was too small"@)
            &&& row_pitch >= 4 * width ==> (r matches Ok(out) && is_frame_rgba(
                out@,
                s@,
                row_pitch as int,
                width as int,
                height as int,
            ))
        },
{
    let src = match source {
        None => {
            return Err(ScreenshotError::InvalidFrame(owned("mapped texture pointer was null")));
        },
        Some(s) => s,
    };
    let src_len = src.len();
    let w = width as usize;
    let h = height as usize;
    let row_bytes: usize = match w.checked_mul(4) {
        Some(b) => b,
        None => {
            return Err(ScreenshotError::InvalidSize);
        },
    };
    if row_pitch < row_bytes {
        return Err(ScreenshotError::InvalidFrame(owned("mapped texture row pitch was too small")));
    }
    let mut out: Vec<u8> = Vec::new();
    let mut y: usize = 0;
    while y < h
        invariant
            src@.len() >= (if h > 0 { (h - 1) * row_pitch + row_bytes } else { 0 }),
            src_len == src@.len(),
            row_bytes == 4 * w,
            row_pitch >= row_bytes,
            w == width,
            h == height,
            y <= h,
            out@.len() == y * row_bytes,
            forall|yy: int, x: int, c: int|
                0 <= yy < y && 0 <= x < w && 0 <= c < 4 ==> #[trigger] out@[yy * (4 * w) + 4 * x + c]
                    == frame_rgba_byte(src@, row_pitch as int, yy, x, c),
        decreases h - y,
    {
        proof {
            assert(y * row_pitch + row_bytes <= (h - 1) * row_pitch + row_bytes) by (nonlinear_arith)
                requires
                    y < h,
                    0 <= row_pitch,
            ;
        }
        let base: usize = y * row_pitch;
        let mut x: usize = 0;
        let ghost row_start = out@;
        while x < w
            invariant
                src@.len() >= base + row_bytes,
                src_len == src@.len(),
                row_bytes == 4 * w,
                base == y * row_pitch,
                x <= w,
                y < h,
                out@.len() == y * row_bytes + 4 * x,
                row_start.len() == y * row_bytes,
                out@.take(y * row_bytes) == row_start,
                forall|xx: int, c: int|
                    0 <= xx < x && 0 <= c < 4 ==> #[trigger] out@[y * (4 * w) + 4 * xx + c]
                        == frame_rgba_byte(src@, row_pitch as int, y as int, xx, c),
            decreases w - x,
        {
            let p = base + 4 * x;
            let ghost before = out@;
            out.push(src[p + 2]);
            out.push(src[p + 1]);
            out.push(src[p]);
            out.push(255);
            assert(out@.take(y * row_bytes) =~= before.take(y * row_bytes));
            assert forall|xx: int, c: int| 0 <= xx < x + 1 && 0 <= c < 4 implies #[trigger] out@[y * (4
                * w) + 4 * xx + c] == frame_rgba_byte(src@, row_pitch as int, y as int, xx, c) by {
                if xx < x {
                    assert(out@[y * (4 * w) + 4 * xx + c] == before[y * (4 * w) + 4 * xx + c]);
                }
            }
            x = x + 1;
        }
        proof {
            assert forall|yy: int, x: int, c: int|
                0 <= yy < y + 1 && 0 <= x < w && 0 <= c < 4 implies #[trigger] out@[yy * (4 * w) + 4 * x + c]
                    == frame_rgba_byte(src@, row_pitch as int, yy, x, c) by {
                if yy < y {
                    lemma_row_index(yy, x, c, w as int, y as int);
                    assert(out@[yy * (4 * w) + 4 * x + c] == row_start[yy * (4 * w) + 4 * x + c]);
                }
            }
            assert(out@.len() == (y + 1) * row_bytes) by (nonlinear_arith)
                requires
                    out@.len() == y * row_bytes + 4 * w,
                    row_bytes == 4 * w,
            ;
        }
        y = y + 1;
    }
    assert(out@.len() == 4 * width * height) by (nonlinear_arith)
        requires
            out@.len() == h * row_bytes,
            row_bytes == 4 * w,
            w == width,
            h == height,
    ;
    Ok(out)
}

/// A GDI capture as a screenshot: its BGRA pixels turned into RGBA and written as PNG.
/// `pixels` holds the bitmap's BGRA bytes, four per pixel.
pub fn gdi_screenshot(width: u32, height: u32, pixels: Vec<u8>) -> (r: Result<CapturedScreenshot, ScreenshotError>)
    requires
        pixels@.len() == 4 * width * height,
    ensures
        ({
            let rgba = Seq::new(pixels@.len(), |i: int| rgba_byte_of_bgra(pixels@, i));
            match r {
                Ok(c) => png_encoding(width, height, rgba) == Some(c.bytes@) && c.width == width && c.height
                    == height && c.backend@ == "win32-gdi"@,
                Err(ScreenshotError::Image(_)) => png_encoding(width, height, rgba) is None,
                Err(_) => false,
            }
        }),
{
    let ghost bgra = pixels@;
    let mut pixels = pixels;
    bgra_to_rgba_in_place(&mut pixels);
    assert(pixels@ =~= Seq::new(bgra.len(), |i: int| rgba_byte_of_bgra(bgra, i)));
    let bytes = match encode_png(width, height, pixels) {
        Ok(b) => b,
        Err(e) => {
            return Err(e);
        },
    };
    Ok(CapturedScreenshot { bytes, width, height, backend: owned("win32-gdi") })
}

/// A Windows Graphics Capture frame as a screenshot: its mapped BGRA rows copied into
/// RGBA and written as PNG.
pub fn wgc_screenshot(source: Option<&[u8]>, row_pitch: usize, width: u32, height: u32) -> (r: Result<
    CapturedScreenshot,
    ScreenshotError,
>)
    requires
        source matches Some(s) ==> height > 0 ==> (height - 1) * row_pitch + 4 * width <= s@.len(),
    ensures
        source is None ==> (r matches Err(ScreenshotError::InvalidFrame(m)) && m@ == "mapped texture pointer was null"@),
        source is Some && 4 * width > usize::MAX ==> (r matches Err(ScreenshotError::InvalidSize)),
        source matches Some(s) ==> 4 * width <= usize::MAX ==> {
            &&& row_pitch < 4 * width ==> (r matches Err(ScreenshotError::InvalidFrame(m)) && m@
                == "mapped texture row pitch was too small"@)
            &&& row_pitch >= 4 * width ==> {
                let rgba = frame_rgba(s@, row_pitch as int, width as int, height as int);
                match r {
                    Ok(c) => png_encoding(width, height, rgba) == Some(c.bytes@) && c.width == width
                        && c.height == height && c.backend@ == "windows-graphics-capture"@,
                    Err(ScreenshotError::Image(_)) => png_encoding(width, height, rgba) is None,
                    Err(_) => false,
                }
            }
        },
{
    let rgba = match copy_bgra_to_rgba(source, row_pitch, width, height) {
        Ok(v) => v,
        Err(e) => {
            return Err(e);
        },
    };
    proof {
        let s = source->Some_0;
        lemma_frame_rgba_unique(
            rgba@,
            frame_rgba(s@, row_pitch as int, width as int, height as int),
            s@,
            row_pitch as int,
            width as int,
            height as int,
        );
    }
    let bytes = match encode_png(width, height, rgba) {
        Ok(b) => b,
        Err(e) => {
            return Err(e);
        },
    };
    Ok(CapturedScreenshot { bytes, width, height, backend: owned("windows-graphics-capture") })
}

/// The size of a window to capture with GDI, from its rectangle: both sides must be
/// positive.
pub fn gdi_capture_size(rect: FrameRect) -> (r: Result<(u32, u32), ScreenshotError>)
    requires
        i32::MIN <= rect.right - rect.left <= i32::MAX,
        i32::MIN <= rect.bottom - rect.top <= i32::MAX,
    ensures
        (rect.right - rect.left <= 0 || rect.bottom - rect.top <= 0) ==> (r matches Err(
            ScreenshotError::InvalidSize,
        )),
        (rect.right - rect.left > 0 && rect.bottom - rect.top > 0) ==> (r matches Ok((w, h)) && w
            == rect.right - rect.left && h == rect.bottom - rect.top),
{
    let width: i32 = rect.right - rect.left;
    let height: i32 = rect.bottom - rect.top;
    if width <= 0 || height <= 0 {
        return Err(ScreenshotError::InvalidSize);
    }
    Ok((width as u32, height as u32))
}

/// The size of a captured frame's content: both sides must be positive.
pub fn wgc_frame_size(content_width: i32, content_height: i32) -> (r: Result<(u32, u32), ScreenshotError>)
    ensures
        (content_width <= 0 || content_height <= 0) ==> (r matches Err(ScreenshotError::InvalidSize)),
        (content_width > 0 && content_height > 0) ==> r == Ok::<(u32, u32), ScreenshotError>(
            (content_width as u32, content_height as u32),
        ),
{
    if content_width <= 0 || content_height <= 0 {
        return Err(ScreenshotError::InvalidSize);
    }
    Ok((content_width as u32, content_height as u32))
}

/// The text that describes a screenshot error.
pub open spec fn screenshot_error_text(e: ScreenshotError) -> Seq<char>
    decreases e,
{
    match e {
        ScreenshotError::Disabled => "screenshot capture is disabled"@,
        ScreenshotError::Unsupported => "window capture is unsupported on this platform"@,
        ScreenshotError::InvalidSize => "invalid window size"@,
        ScreenshotError::Timeout => "screenshot capture timed out"@,
        ScreenshotError::InvalidFrame(m) => "screenshot frame was not usable: "@ + m@,
        ScreenshotError::CaptureFailed(m) => "screenshot capture call failed: "@ + m@,
        ScreenshotError::AllBackendsFailed { wgc, gdi } => "all screenshot backends failed; WGC: "@
            + screenshot_error_text(*wgc) + "; GDI: "@ + screenshot_error_text(*gdi),
        ScreenshotError::Image(m) => "image error: "@ + m@,
    }
}

impl ScreenshotError {
    /// The text that describes the error.
    pub fn message(&self) -> (r: String)
        ensures
            r@ == screenshot_error_text(*self),
        decreases self,
    {
        let mut v: Vec<char> = Vec::new();
        match self {
            ScreenshotError::Disabled => extend_str(&mut v, "screenshot capture is disabled"),
            ScreenshotError::Unsupported => extend_str(&mut v, "window capture is unsupported on this platform"),
            ScreenshotError::InvalidSize => extend_str(&mut v, "invalid window size"),
            ScreenshotError::Timeout => extend_str(&mut v, "screenshot capture timed out"),
            ScreenshotError::InvalidFrame(m) => {
                extend_str(&mut v, "screenshot frame was not usable: ");
                extend_str(&mut v, m.as_str());
            },
            ScreenshotError::CaptureFailed(m) => {
                extend_str(&mut v, "screenshot capture call failed: ");
                extend_str(&mut v, m.as_str());
            },
            ScreenshotError::AllBackendsFailed { wgc, gdi } => {
                let w = wgc.message();
                let g = gdi.message();
                extend_str(&mut v, "all screenshot backends failed; WGC: ");
                extend_str(&mut v, w.as_str());
                extend_str(&mut v, "; GDI: ");
                extend_str(&mut v, g.as_str());
            },
            ScreenshotError::Image(m) => {
                extend_str(&mut v, "image error: ");
                extend_str(&mut v, m.as_str());
            },
        }
        chars_to_string(&v)
    }
}

} // verus!
