//! Asset identities and metadata, download names, base64 payloads, JPEG copies and
//! the FFmpeg invocation that turns WAV clips into one MP3.
use vstd::prelude::*;
use crate::text::{chars_to_string, decimal, decimal_chars, extend_chars, extend_str, owned, str_chars, str_eq, trim_str, trimmed};
use crate::types::{AssetBase64Response, AssetInfo, AssetKind};

verus! {

// ---------------------------------------------------------------------------
// Outside calls
// ---------------------------------------------------------------------------

/// The file extensions that `mime_guess` knows for a MIME type, in its order.
pub uninterp spec fn mime_extensions(mime: Seq<char>) -> Option<Seq<Seq<char>>>;

/// `mime_guess::get_mime_extensions_str`: the extensions registered for a MIME type
/// (the result is converted to owned strings, in the same order).
#[verifier::external_body]
fn known_extensions(mime: &str) -> (r: Option<Vec<String>>)
    ensures
        match r {
            Some(v) => mime_extensions(mime@) == Some(v@.map_values(|s: String| s@)),
            None => mime_extensions(mime@) is None,
        },
{
    mime_guess::get_mime_extensions_str(mime).map(|exts| exts.iter().map(|e| e.to_string()).collect())
}

pub open spec fn is_lower_hex(c: char) -> bool {
    ('0' <= c <= '9') || ('a' <= c <= 'f')
}

/// `uuid::Uuid::new_v4().simple()`: a random version-4 UUID written as 32 lower-case
/// hexadecimal digits. Which digits come is not stated: they are random.
#[verifier::external_body]
fn random_uuid_simple() -> (s: String)
    ensures
        s@.len() == 32,
        forall|i: int| 0 <= i < 32 ==> is_lower_hex(#[trigger] s@[i]),
{
    uuid::Uuid::new_v4().simple().to_string()
}

/// The base64 digit of a 6-bit value, in the standard alphabet.
pub open spec fn base64_digit(v: int) -> char {
    if v < 26 {
        ((65 + v) as u8) as char
    } else if v < 52 {
        ((97 + v - 26) as u8) as char
    } else if v < 62 {
        ((48 + v - 52) as u8) as char
    } else if v == 62 {
        '+'
    } else {
        '/'
    }
}

/// The standard, padded base64 text of some bytes: each group of three bytes, read as a
/// 24-bit number, gives four digits of six bits; a last group of one or two bytes gives
/// two or three digits, padded with `=` to four.
pub open spec fn base64_standard(b: Seq<u8>) -> Seq<char>
    decreases b.len(),
{
    if b.len() == 0 {
        Seq::empty()
    } else if b.len() == 1 {
        let n = b[0] as int * 65536;
        seq![base64_digit(n / 262144), base64_digit(n / 4096 % 64), '=', '=']
    } else if b.len() == 2 {
        let n = b[0] as int * 65536 + b[1] as int * 256;
        seq![base64_digit(n / 262144), base64_digit(n / 4096 % 64), base64_digit(n / 64 % 64), '=']
    } else {
        let n = b[0] as int * 65536 + b[1] as int * 256 + b[2] as int;
        seq![
            base64_digit(n / 262144),
            base64_digit(n / 4096 % 64),
            base64_digit(n / 64 % 64),
            base64_digit(n % 64),
        ] + base64_standard(b.skip(3))
    }
}

/// `base64::engine::general_purpose::STANDARD.encode`: the standard alphabet with `=`
/// padding (RFC 4648), as `base64_standard` states it.
#[verifier::external_body]
fn encode_base64(bytes: &[u8]) -> (s: String)
    requires
        4 * ((bytes@.len() + 2) / 3) <= usize::MAX,
    ensures
        s@ == base64_standard(bytes@),
{
    base64::Engine::encode(&base64::engine::general_purpose::STANDARD, bytes)
}

/// A JPEG copy of an image.
#[derive(Debug, Clone)]
pub struct JpegImage {
    pub bytes: Vec<u8>,
    pub width: u32,
    pub height: u32,
}

/// The JPEG that `image` writes at `quality` for encoded image bytes, with the image's
/// width and height; `None` where the bytes do not decode or the encoder fails.
pub uninterp spec fn jpeg_encoding(bytes: Seq<u8>, quality: u8) -> Option<(Seq<u8>, u32, u32)>;

/// `image::load_from_memory` then `JpegEncoder::new_with_quality(..).encode_image`:
/// decodes encoded image bytes and writes them as JPEG. The error's text is not stated.
#[verifier::external_body]
fn transcode_to_jpeg(bytes: &[u8], quality: u8) -> (r: Result<JpegImage, String>)
    requires
        1 <= quality <= 100,
    ensures
        match r {
            Ok(j) => jpeg_encoding(bytes@, quality) == Some((j.bytes@, j.width, j.height)),
            Err(_) => jpeg_encoding(bytes@, quality) is None,
        },
{
    let image = image::load_from_memory(bytes).map_err(|e| e.to_string())?;
    let mut out = Vec::new();
    let mut encoder = image::codecs::jpeg::JpegEncoder::new_with_quality(&mut out, quality);
    encoder.encode_image(&image).map_err(|e| e.to_string())?;
    Ok(JpegImage { bytes: out, width: image.width(), height: image.height() })
}

// ---------------------------------------------------------------------------
// Names and metadata
// ---------------------------------------------------------------------------

/// The file extension for a MIME type.
pub open spec fn extension_spec(mime: Seq<char>) -> Seq<char> {
    if mime == "image/png"@ {
        "png"@
    } else if mime == "image/jpeg"@ {
        "jpg"@
    } else if mime == "audio/wav"@ || mime == "audio/x-wav"@ {
        "wav"@
    } else if mime == "audio/mpeg"@ {
        "mp3"@
    } else {
        match mime_extensions(mime) {
            Some(exts) if exts.len() > 0 => exts[0],
            _ => "bin"@,
        }
    }
}

/// The file extension for a MIME type: the usual ones first, else the first one
/// `mime_guess` knows, else `bin`.
pub fn extension_for_mime(mime_type: &str) -> (ext: String)
    ensures
        ext@ == extension_spec(mime_type@),
{
    if str_eq(mime_type, "image/png") {
        owned("png")
    } else if str_eq(mime_type, "image/jpeg") {
        owned("jpg")
    } else if str_eq(mime_type, "audio/wav") || str_eq(mime_type, "audio/x-wav") {
        owned("wav")
    } else if str_eq(mime_type, "audio/mpeg") {
        owned("mp3")
    } else {
        match known_extensions(mime_type) {
            Some(exts) => {
                if exts.len() > 0 {
                    exts[0].clone()
                } else {
                    owned("bin")
                }
            },
            None => owned("bin"),
        }
    }
}

/// The download name of an asset: its id, a dot and its extension.
pub fn filename_for_asset(asset: &AssetInfo) -> (name: String)
    ensures
        name@ == asset.asset_id@ + "."@ + extension_spec(asset.mime_type@),
{
    let ext = extension_for_mime(asset.mime_type.as_str());
    let mut v = str_chars(asset.asset_id.as_str());
    extend_str(&mut v, ".");
    extend_str(&mut v, ext.as_str());
    chars_to_string(&v)
}

/// The total duration of clips, saturating, or `None` where one has no duration.
pub open spec fn total_duration_spec(s: Seq<AssetInfo>) -> Option<int>
    decreases s.len(),
{
    if s.len() == 0 {
        Some(0)
    } else {
        match (total_duration_spec(s.drop_last()), s.last().duration_ms) {
            (Some(t), Some(d)) => Some(if t + d > u64::MAX {
                u64::MAX as int
            } else {
                t + d
            }),
            _ => None,
        }
    }
}

/// The total duration of clips.
pub fn total_duration_ms(sources: &[AssetInfo]) -> (r: Option<u64>)
    ensures
        match (r, total_duration_spec(sources@)) {
            (Some(a), Some(b)) => a == b,
            (None, None) => true,
            _ => false,
        },
{
    let mut total: u64 = 0;
    let mut i: usize = 0;
    while i < sources.len()
        invariant
            i <= sources@.len(),
            total_duration_spec(sources@.take(i as int)) == Some(total as int),
        decreases sources@.len() - i,
    {
        assert(sources@.take(i as int + 1).drop_last() =~= sources@.take(i as int));
        match sources[i].duration_ms {
            None => {
                proof {
                    lemma_total_none(sources@, i as int + 1);
                }
                return None;
            },
            Some(d) => {
                total = total.saturating_add(d);
            },
        }
        i = i + 1;
    }
    assert(sources@.take(sources@.len() as int) =~= sources@);
    Some(total)
}

proof fn lemma_total_none(s: Seq<AssetInfo>, k: int)
    requires
        0 < k <= s.len(),
        total_duration_spec(s.take(k)) is None,
    ensures
        total_duration_spec(s) is None,
    decreases s.len() - k,
{
    if k < s.len() {
        assert(s.take(k + 1).drop_last() =~= s.take(k));
        lemma_total_none(s, k + 1);
    } else {
        assert(s.take(k) =~= s);
    }
}

/// The URL under which an asset is served.
pub open spec fn asset_url(asset_id: Seq<char>) -> Seq<char> {
    "/assets/"@ + asset_id
}

/// Whether an id has the form that new assets get: `asset_` and 32 hexadecimal digits.
pub open spec fn is_asset_id(id: Seq<char>) -> bool {
    &&& id.len() == 38
    &&& id.take(6) == "asset_"@
    &&& forall|i: int| 6 <= i < 38 ==> is_lower_hex(#[trigger] id[i])
}

/// The metadata of a newly stored asset: a fresh random id, its URL, the given fields
/// and the creation time.
pub fn new_asset_info(
    kind: AssetKind,
    mime_type: String,
    byte_size: u64,
    width: Option<u32>,
    height: Option<u32>,
    duration_ms: Option<u64>,
    created_unix_ms: i64,
) -> (a: AssetInfo)
    ensures
        is_asset_id(a.asset_id@),
        a.url@ == asset_url(a.asset_id@),
        a.kind == kind,
        a.mime_type == mime_type,
        a.width == width,
        a.height == height,
        a.duration_ms == duration_ms,
        a.created_unix_ms == created_unix_ms,
        a.byte_size == byte_size,
{
    let hex = random_uuid_simple();
    let mut id = Vec::new();
    extend_str(&mut id, "asset_");
    let ghost prefix = id@;
    extend_str(&mut id, hex.as_str());
    proof {
        reveal_strlit("asset_");
        assert(id@.take(6) =~= "asset_"@);
        assert forall|i: int| 6 <= i < 38 implies is_lower_hex(#[trigger] id@[i]) by {
            assert(id@[i] == hex@[i - 6]);
        }
    }
    let asset_id = chars_to_string(&id);
    let mut url = Vec::new();
    extend_str(&mut url, "/assets/");
    extend_chars(&mut url, &id);
    AssetInfo {
        asset_id,
        kind,
        mime_type,
        url: chars_to_string(&url),
        width,
        height,
        duration_ms,
        created_unix_ms,
        byte_size,
    }
}

/// The base64 payload that hands an asset to the browser.
pub fn base64_response(asset: &AssetInfo, bytes: &[u8]) -> (r: AssetBase64Response)
    requires
        4 * ((bytes@.len() + 2) / 3) <= usize::MAX,
    ensures
        r.asset_id@ == asset.asset_id@,
        r.filename@ == asset.asset_id@ + "."@ + extension_spec(asset.mime_type@),
        r.mime_type@ == asset.mime_type@,
        r.data@ == base64_standard(bytes@),
{
    AssetBase64Response {
        asset_id: asset.asset_id.clone(),
        filename: filename_for_asset(asset),
        mime_type: asset.mime_type.clone(),
        data: encode_base64(bytes),
    }
}

/// What a JPEG copy of a screenshot needs: nothing where it already is a JPEG, else a
/// transcode of its bytes.
pub fn needs_jpeg_transcode(source: &AssetInfo) -> (r: bool)
    ensures
        r == (source.mime_type@ != "image/jpeg"@),
{
    !str_eq(source.mime_type.as_str(), "image/jpeg")
}

/// A JPEG copy of screenshot bytes at `quality`, clamped into 1..=100.
pub fn screenshot_to_jpeg(bytes: &[u8], quality: u8) -> (r: Result<JpegImage, String>)
    ensures
        ({
            let q = if quality < 1 {
                1u8
            } else if quality > 100 {
                100u8
            } else {
                quality
            };
            match r {
                Ok(j) => jpeg_encoding(bytes@, q) == Some((j.bytes@, j.width, j.height)),
                Err(_) => jpeg_encoding(bytes@, q) is None,
            }
        }),
{
    let q: u8 = if quality < 1 { 1 } else if quality > 100 { 100 } else { quality };
    transcode_to_jpeg(bytes, q)
}

// ---------------------------------------------------------------------------
// The catalog of stored assets
// ---------------------------------------------------------------------------

/// The first asset with id `id`, if any.
pub open spec fn catalog_find(s: Seq<AssetInfo>, id: Seq<char>) -> Option<AssetInfo>
    decreases s.len(),
{
    if s.len() == 0 {
        None
    } else if s[0].asset_id@ == id {
        Some(s[0])
    } else {
        catalog_find(s.drop_first(), id)
    }
}

/// The metadata of the assets stored since start-up.
#[derive(Debug)]
pub struct AssetCatalog {
    pub assets: Vec<AssetInfo>,
}

impl AssetCatalog {
    pub fn new() -> (c: Self)
        ensures
            c.assets@.len() == 0,
    {
        AssetCatalog { assets: Vec::new() }
    }

    /// Remembers an asset; a later lookup of its id finds it.
    pub fn record(&mut self, asset: AssetInfo)
        ensures
            final(self).assets@ == seq![asset] + old(self).assets@,
            catalog_find(final(self).assets@, asset.asset_id@) == Some(asset),
    {
        self.assets.insert(0, asset);
        assert(self.assets@[0] == asset);
    }

    /// The metadata of the asset with id `asset_id`, the one recorded last.
    pub fn find_asset_info(&self, asset_id: &str) -> (r: Option<AssetInfo>)
        ensures
            r == catalog_find(self.assets@, asset_id@),
    {
        let mut i: usize = 0;
        assert(self.assets@.skip(0) =~= self.assets@);
        while i < self.assets.len()
            invariant
                i <= self.assets@.len(),
                catalog_find(self.assets@, asset_id@) == catalog_find(self.assets@.skip(i as int), asset_id@),
            decreases self.assets@.len() - i,
        {
            assert(self.assets@.skip(i as int).drop_first() =~= self.assets@.skip(i as int + 1));
            assert(self.assets@.skip(i as int)[0] == self.assets@[i as int]);
            if str_eq(self.assets[i].asset_id.as_str(), asset_id) {
                return Some(self.assets[i].duplicate());
            }
            i = i + 1;
        }
        None
    }
}

// ---------------------------------------------------------------------------
// FFmpeg
// ---------------------------------------------------------------------------

/// The decimal text of `n`, at least three digits wide with leading zeros.
pub open spec fn pad3(n: nat) -> Seq<char> {
    if n < 10 {
        "00"@ + decimal(n)
    } else if n < 100 {
        "0"@ + decimal(n)
    } else {
        decimal(n)
    }
}

/// The temporary file name of the `index`-th input clip: `input_NNN.<ext>`.
pub fn mp3_input_file_name(index: usize, mime_type: &str) -> (name: String)
    ensures
        name@ == "input_"@ + pad3(index as nat) + "."@ + extension_spec(mime_type@),
{
    let mut v: Vec<char> = Vec::new();
    extend_str(&mut v, "input_");
    if index < 10 {
        extend_str(&mut v, "00");
    } else if index < 100 {
        extend_str(&mut v, "0");
    }
    let d = decimal_chars(index as u64);
    extend_chars(&mut v, &d);
    extend_str(&mut v, ".");
    let ext = extension_for_mime(mime_type);
    extend_str(&mut v, ext.as_str());
    chars_to_string(&v)
}

/// The concat list that names each input file on a line of its own.
pub open spec fn concat_list_spec(names: Seq<String>) -> Seq<char>
    decreases names.len(),
{
    if names.len() == 0 {
        Seq::empty()
    } else {
        concat_list_spec(names.drop_last()) + "file '"@ + names.last()@ + "'\n"@
    }
}

/// Whether a card needs an MP3: only where some line has a ready clip.
pub fn needs_mp3(sources: &[AssetInfo]) -> (r: bool)
    ensures
        r == (sources@.len() > 0),
{
    sources.len() > 0
}

/// FFmpeg's output taken as the card's MP3: an empty file is refused.
pub fn accept_mp3_output(bytes: Vec<u8>) -> (r: Result<Vec<u8>, String>)
    ensures
        bytes@.len() == 0 ==> (r matches Err(m) && m@ == "ffmpeg produced an empty MP3 file"@),
        bytes@.len() > 0 ==> (r matches Ok(b) && b@ == bytes@),
{
    if bytes.len() == 0 {
        Err(owned("ffmpeg produced an empty MP3 file"))
    } else {
        Ok(bytes)
    }
}

/// The FFmpeg concat list for the input files.
pub fn concat_list(names: &[String]) -> (text: String)
    ensures
        text@ == concat_list_spec(names@),
{
    let mut v: Vec<char> = Vec::new();
    let mut i: usize = 0;
    while i < names.len()
        invariant
            i <= names@.len(),
            v@ == concat_list_spec(names@.take(i as int)),
        decreases names@.len() - i,
    {
        assert(names@.take(i as int + 1).drop_last() =~= names@.take(i as int));
        extend_str(&mut v, "file '");
        extend_str(&mut v, names[i].as_str());
        extend_str(&mut v, "'\n");
        i = i + 1;
    }
    assert(names@.take(names@.len() as int) =~= names@);
    chars_to_string(&v)
}

/// The bitrate argument: the rate in kbit/s (at least 1) and `k`.
pub open spec fn bitrate_arg(bitrate_kbps: u32) -> Seq<char> {
    decimal((if bitrate_kbps < 1 {
        1
    } else {
        bitrate_kbps
    }) as nat) + "k"@
}

/// The views of a run of strings.
pub open spec fn string_views(s: Seq<String>) -> Seq<Seq<char>> {
    s.map_values(|x: String| x@)
}

/// FFmpeg's arguments for turning the inputs into one MP3: a single input is read
/// directly, several through the concat list.
pub open spec fn ffmpeg_args_spec(
    inputs: Seq<String>,
    concat_list_path: Seq<char>,
    output_path: Seq<char>,
    bitrate_kbps: u32,
) -> Seq<Seq<char>> {
    seq!["-y"@, "-hide_banner"@, "-loglevel"@, "error"@] + (if inputs.len() == 1 {
        seq!["-i"@, inputs[0]@]
    } else {
        seq!["-f"@, "concat"@, "-safe"@, "0"@, "-i"@, concat_list_path]
    }) + seq!["-vn"@, "-codec:a"@, "libmp3lame"@, "-b:a"@, bitrate_arg(bitrate_kbps), output_path]
}

fn push_arg(args: &mut Vec<String>, a: &str)
    ensures
        string_views(final(args)@) == string_views(old(args)@).push(a@),
{
    let ghost before = args@;
    args.push(owned(a));
    assert(string_views(args@) =~= string_views(before).push(a@));
}

/// FFmpeg's arguments for turning the input files into one MP3.
pub fn ffmpeg_mp3_args(
    inputs: &[String],
    concat_list_path: &str,
    output_path: &str,
    bitrate_kbps: u32,
) -> (args: Vec<String>)
    requires
        inputs@.len() > 0,
    ensures
        string_views(args@) == ffmpeg_args_spec(inputs@, concat_list_path@, output_path@, bitrate_kbps),
{
    let mut args: Vec<String> = Vec::new();
    assert(string_views(args@) =~= Seq::<Seq<char>>::empty());
    push_arg(&mut args, "-y");
    push_arg(&mut args, "-hide_banner");
    push_arg(&mut args, "-loglevel");
    push_arg(&mut args, "error");
    if inputs.len() == 1 {
        push_arg(&mut args, "-i");
        push_arg(&mut args, inputs[0].as_str());
    } else {
        push_arg(&mut args, "-f");
        push_arg(&mut args, "concat");
        push_arg(&mut args, "-safe");
        push_arg(&mut args, "0");
        push_arg(&mut args, "-i");
        push_arg(&mut args, concat_list_path);
    }
    push_arg(&mut args, "-vn");
    push_arg(&mut args, "-codec:a");
    push_arg(&mut args, "libmp3lame");
    push_arg(&mut args, "-b:a");
    let rate: u32 = if bitrate_kbps < 1 { 1 } else { bitrate_kbps };
    let mut b = decimal_chars(rate as u64);
    extend_str(&mut b, "k");
    let bitrate = chars_to_string(&b);
    push_arg(&mut args, bitrate.as_str());
    push_arg(&mut args, output_path);
    assert(string_views(args@) =~= ffmpeg_args_spec(
        inputs@,
        concat_list_path@,
        output_path@,
        bitrate_kbps,
    ));
    args
}

/// The message for a failed FFmpeg run: its trimmed standard error, else its trimmed
/// standard output, else `ffmpeg exited with <status>`.
pub open spec fn ffmpeg_failure_spec(stderr: Seq<char>, stdout: Seq<char>, status: Seq<char>) -> Seq<char> {
    let detail = if trimmed(stderr).len() == 0 {
        trimmed(stdout)
    } else {
        trimmed(stderr)
    };
    if detail.len() == 0 {
        "ffmpeg exited with "@ + status
    } else {
        detail
    }
}

/// The message for a failed FFmpeg run.
pub fn ffmpeg_failure_detail(stderr: &str, stdout: &str, status: &str) -> (m: String)
    ensures
        m@ == ffmpeg_failure_spec(stderr@, stdout@, status@),
{
    let err = trim_str(stderr);
    let detail = if err.len() == 0 { trim_str(stdout) } else { err };
    if detail.len() == 0 {
        let mut v: Vec<char> = Vec::new();
        extend_str(&mut v, "ffmpeg exited with ");
        extend_str(&mut v, status);
        chars_to_string(&v)
    } else {
        chars_to_string(&detail)
    }
}

// ---------------------------------------------------------------------------
// Expiry and the storage cap
// ---------------------------------------------------------------------------

/// A stored asset file: its id (the file name), its size, how long ago it was last
/// modified and when (both in nanoseconds; the modification time counts from the Unix
/// epoch).
#[derive(Debug, Clone)]
pub struct AssetEntry {
    pub asset_id: String,
    pub size: u64,
    pub age_ns: u128,
    pub modified_ns: u128,
}

/// The time to live in nanoseconds (`ttl_minutes` minutes, the seconds saturating).
pub open spec fn ttl_ns(ttl_minutes: u64) -> int {
    (if ttl_minutes * 60 > u64::MAX {
        u64::MAX as int
    } else {
        ttl_minutes * 60
    }) * 1_000_000_000
}

/// The positions of the entries older than the time to live, in order; none where the
/// time to live is zero.
pub open spec fn expired_spec(entries: Seq<AssetEntry>, ttl_minutes: u64) -> Seq<usize>
    decreases entries.len(),
{
    if entries.len() == 0 {
        Seq::empty()
    } else {
        let head = expired_spec(entries.drop_last(), ttl_minutes);
        if ttl_ns(ttl_minutes) > 0 && entries.last().age_ns > ttl_ns(ttl_minutes) {
            head.push((entries.len() - 1) as usize)
        } else {
            head
        }
    }
}

/// The entries to delete for age.
pub fn expired_entries(entries: &[AssetEntry], ttl_minutes: u64) -> (r: Vec<usize>)
    ensures
        r@ == expired_spec(entries@, ttl_minutes),
{
    let secs: u64 = match ttl_minutes.checked_mul(60) {
        Some(s) => s,
        None => u64::MAX,
    };
    let ttl: u128 = secs as u128 * 1_000_000_000;
    let mut r: Vec<usize> = Vec::new();
    let mut i: usize = 0;
    while i < entries.len()
        invariant
            i <= entries@.len(),
            ttl == ttl_ns(ttl_minutes),
            r@ == expired_spec(entries@.take(i as int), ttl_minutes),
        decreases entries@.len() - i,
    {
        assert(entries@.take(i as int + 1).drop_last() =~= entries@.take(i as int));
        if ttl > 0 && entries[i].age_ns > ttl {
            r.push(i);
        }
        i = i + 1;
    }
    assert(entries@.take(entries@.len() as int) =~= entries@);
    r
}

/// The total size of the entries.
pub open spec fn total_size(entries: Seq<AssetEntry>) -> int
    decreases entries.len(),
{
    if entries.len() == 0 {
        0
    } else {
        total_size(entries.drop_last()) + entries.last().size
    }
}

/// `a` comes before `b` in the eviction order: older first, ties by position.
pub open spec fn evicts_before(entries: Seq<AssetEntry>, a: int, b: int) -> bool {
    entries[a].modified_ns < entries[b].modified_ns || (entries[a].modified_ns
        == entries[b].modified_ns && a < b)
}

/// The order in which the storage cap deletes entries: every position once, oldest
/// first, ties in position order.
pub open spec fn is_eviction_order(entries: Seq<AssetEntry>, order: Seq<usize>) -> bool {
    &&& order.len() == entries.len()
    &&& forall|k: int| 0 <= k < order.len() ==> #[trigger] order[k] < entries.len()
    &&& forall|k: int, l: int|
        0 <= k < l < order.len() ==> evicts_before(entries, order[k] as int, order[l] as int)
}

/// Deleting the oldest entries until the total fits the cap: a step at a time, each
/// deletion reported back because it can fail.
#[derive(Debug)]
pub struct StorageEviction {
    pub order: Vec<usize>,
    pub sizes: Vec<u64>,
    pub total: u64,
    pub max_bytes: u64,
    pub pos: usize,
}

impl StorageEviction {
    pub open spec fn wf(&self) -> bool {
        &&& self.pos <= self.order@.len()
        &&& self.order@.len() == self.sizes@.len()
        &&& forall|k: int| 0 <= k < self.order@.len() ==> #[trigger] self.order@[k] < self.sizes@.len()
    }

    /// Starts with the entries that expiry left: their total size, and the cap
    /// (`max_storage_mb` MiB, saturating; zero means no cap).
    pub fn start(entries: &[AssetEntry], max_storage_mb: u64) -> (e: Self)
        requires
            total_size(entries@) <= u64::MAX,
        ensures
            e.wf(),
            e.pos == 0,
            e.total == total_size(entries@),
            e.max_bytes == (if max_storage_mb * 1048576 > u64::MAX {
                u64::MAX as int
            } else {
                max_storage_mb * 1048576
            }),
            is_eviction_order(entries@, e.order@),
            forall|k: int| 0 <= k < entries@.len() ==> #[trigger] e.sizes@[k] == entries@[k].size,
    {
        let max_bytes: u64 = match max_storage_mb.checked_mul(1024 * 1024) {
            Some(m) => m,
            None => u64::MAX,
        };
        let mut total: u64 = 0;
        let mut sizes: Vec<u64> = Vec::new();
        let mut order: Vec<usize> = Vec::new();
        let mut i: usize = 0;
        while i < entries.len()
            invariant
                i <= entries@.len(),
                total_size(entries@) <= u64::MAX,
                total == total_size(entries@.take(i as int)),
                sizes@.len() == i,
                forall|k: int| 0 <= k < i ==> #[trigger] sizes@[k] == entries@[k].size,
                order@.len() == i,
                forall|k: int| 0 <= k < i ==> #[trigger] order@[k] < i,
                forall|k: int, l: int|
                    0 <= k < l < i ==> evicts_before(entries@, order@[k] as int, order@[l] as int),
            decreases entries@.len() - i,
        {
            assert(entries@.take(i as int + 1).drop_last() =~= entries@.take(i as int));
            proof {
                lemma_total_size_prefix(entries@, i as int + 1);
            }
            total = total + entries[i].size;
            sizes.push(entries[i].size);
            let key = entries[i].modified_ns;
            let mut p: usize = order.len();
            while p > 0 && entries[order[p - 1]].modified_ns > key
                invariant
                    p <= order@.len(),
                    i < entries@.len(),
                    key == entries@[i as int].modified_ns,
                    forall|k: int| 0 <= k < order@.len() ==> #[trigger] order@[k] < i,
                    forall|k: int| p <= k < order@.len() ==> entries@[#[trigger] order@[k] as int].modified_ns > key,
                decreases p,
            {
                p = p - 1;
            }
            let ghost before = order@;
            order.insert(p, i);
            proof {
                assert(order@ =~= before.insert(p as int, i));
                assert forall|k: int, l: int| 0 <= k < l < order@.len() implies evicts_before(
                    entries@,
                    order@[k] as int,
                    order@[l] as int,
                ) by {
                    if l < p {
                        assert(order@[k] == before[k] && order@[l] == before[l]);
                    } else if k > p {
                        assert(order@[k] == before[k - 1] && order@[l] == before[l - 1]);
                    } else if k == p {
                        assert(order@[l] == before[l - 1]);
                        assert(entries@[before[l - 1] as int].modified_ns > key);
                    } else {
                        assert(order@[k] == before[k]);
                        if l == p {
                            assert(before[k] < i);
                            if p > 0 {
                                assert(entries@[before[p - 1] as int].modified_ns <= key);
                                if k < p - 1 {
                                    assert(evicts_before(entries@, before[k] as int, before[p - 1] as int));
                                }
                            }
                        } else {
                            assert(order@[l] == before[l - 1]);
                        }
                    }
                }
            }
            i = i + 1;
        }
        assert(entries@.take(entries@.len() as int) =~= entries@);
        StorageEviction { order, sizes, total, max_bytes, pos: 0 }
    }

    /// The next entry to delete, or `None` once the total fits the cap (or there is no
    /// cap, or nothing is left).
    pub fn next_eviction(&mut self) -> (r: Option<usize>)
        requires
            old(self).wf(),
        ensures
            final(self).wf(),
            final(self).order == old(self).order,
            final(self).sizes == old(self).sizes,
            final(self).total == old(self).total,
            final(self).max_bytes == old(self).max_bytes,
            if old(self).max_bytes == 0 || old(self).pos >= old(self).order@.len() || old(self).total
                <= old(self).max_bytes {
                r is None && final(self).pos == old(self).pos
            } else {
                r == Some(old(self).order@[old(self).pos as int]) && final(self).pos == old(self).pos
                    + 1
            },
    {
        if self.max_bytes == 0 || self.pos >= self.order.len() || self.total <= self.max_bytes {
            return None;
        }
        let idx = self.order[self.pos];
        self.pos = self.pos + 1;
        Some(idx)
    }

    /// Reports whether deleting entry `index` succeeded; a deletion frees its size.
    pub fn report(&mut self, index: usize, deleted: bool)
        requires
            old(self).wf(),
            index < old(self).sizes@.len(),
        ensures
            final(self).wf(),
            final(self).order == old(self).order,
            final(self).sizes == old(self).sizes,
            final(self).pos == old(self).pos,
            final(self).max_bytes == old(self).max_bytes,
            final(self).total == (if deleted {
                if old(self).total >= old(self).sizes@[index as int] {
                    old(self).total - old(self).sizes@[index as int]
                } else {
                    0
                }
            } else {
                old(self).total as int
            }),
    {
        if deleted {
            self.total = self.total.saturating_sub(self.sizes[index]);
        }
    }
}

proof fn lemma_total_size_prefix(s: Seq<AssetEntry>, k: int)
    requires
        0 <= k <= s.len(),
    ensures
        total_size(s.take(k)) <= total_size(s),
    decreases s.len() - k,
{
    if k < s.len() {
        lemma_total_size_prefix(s, k + 1);
        assert(s.take(k + 1).drop_last() =~= s.take(k));
    } else {
        assert(s.take(k) =~= s);
    }
}

} // verus!
