//! Everything around the yt-dlp executable: locating it, the progress it prints,
//! and the metadata that it and the oEmbed endpoints give.
pub mod bin_manager;
pub mod progress_parser;
pub mod json_metadata;

pub use bin_manager::{BinManager, UpdateChannel};
pub use progress_parser::JsonProgressParser;

use vstd::prelude::*;
use std::path::PathBuf;

use crate::text::{concat, owned, push_owned, push_str, to_uppercase, str_to_uppercase, strings_view};
use crate::url_normalizer::{
    detect_platform, normalize_url, normalized_url, opt_str_view, platform_args, platform_of,
    args_for_platform, Platform,
};
use bin_manager::BinaryError;

verus! {

/// One downloadable format of a media item.
pub struct MediaFormat {
    pub format_id: String,
    pub ext: String,
    pub resolution: Option<String>,
    pub filesize: Option<i64>,
    pub vcodec: Option<String>,
    pub acodec: Option<String>,
    pub note: Option<String>,
}

/// The view of an optional string.
pub open spec fn ov(o: Option<String>) -> Option<Seq<char>> {
    crate::presets::opt_string_view(o)
}

/// A format as yt-dlp's JSON describes it: skipped without an id, `mp4` where no
/// extension is given, the approximate size where no exact one is.
pub fn media_format_from_fields(
    format_id: Option<String>,
    ext: Option<String>,
    resolution: Option<String>,
    filesize: Option<i64>,
    filesize_approx: Option<i64>,
    vcodec: Option<String>,
    acodec: Option<String>,
    note: Option<String>,
) -> (r: Option<MediaFormat>)
    ensures
        r is Some <==> format_id is Some,
        r matches Some(f) ==> {
            &&& Some(f.format_id@) == ov(format_id)
            &&& f.ext@ == match ext {
                Some(e) => e@,
                None => "mp4"@,
            }
            &&& ov(f.resolution) == ov(resolution)
            &&& f.filesize == match filesize {
                Some(n) => Some(n),
                None => filesize_approx,
            }
            &&& ov(f.vcodec) == ov(vcodec)
            &&& ov(f.acodec) == ov(acodec)
            &&& ov(f.note) == ov(note)
        },
{
    let id = match format_id {
        Some(id) => id,
        None => return None,
    };
    let ext = match ext {
        Some(e) => e,
        None => owned("mp4"),
    };
    let filesize = match filesize {
        Some(n) => Some(n),
        None => filesize_approx,
    };
    Some(MediaFormat { format_id: id, ext, resolution, filesize, vcodec, acodec, note })
}

/// The single format offered when metadata comes from oEmbed or OpenGraph:
/// the best stream, MP4, H.264 and AAC.
pub fn direct_media_format(note: &str) -> (r: MediaFormat)
    ensures
        r.format_id@ == "best"@,
        r.ext@ == "mp4"@,
        ov(r.resolution) == Some("Auto"@),
        r.filesize is None,
        ov(r.vcodec) == Some("h264"@),
        ov(r.acodec) == Some("aac"@),
        ov(r.note) == Some(note@),
{
    MediaFormat {
        format_id: owned("best"),
        ext: owned("mp4"),
        resolution: Some(owned("Auto")),
        filesize: None,
        vcodec: Some(owned("h264")),
        acodec: Some(owned("aac")),
        note: Some(owned(note)),
    }
}

/// The thumbnail of a media item: the `thumbnail` field, else the last of the
/// listed thumbnail URLs.
pub open spec fn chosen_thumbnail(thumbnail: Option<Seq<char>>, urls: Seq<Seq<char>>) -> Option<
    Seq<char>,
> {
    match thumbnail {
        Some(t) => Some(t),
        None => if urls.len() > 0 {
            Some(urls.last())
        } else {
            None
        },
    }
}

/// The thumbnail URL of a media item from yt-dlp's `thumbnail` field and the
/// URLs of its `thumbnails` list.
pub fn choose_thumbnail(thumbnail: Option<String>, thumbnail_urls: Vec<String>) -> (r: Option<String>)
    ensures
        ov(r) == chosen_thumbnail(ov(thumbnail), strings_view(thumbnail_urls@)),
{
    match thumbnail {
        Some(t) => Some(t),
        None => {
            let mut urls = thumbnail_urls;
            if urls.len() > 0 {
                let n = urls.len() - 1;
                Some(urls.remove(n))
            } else {
                None
            }
        },
    }
}

/// The arguments of the yt-dlp metadata query for a normalized URL: JSON output
/// of one item, the platform's headers, the URL, and the browser to take
/// cookies from where one is chosen.
pub open spec fn metadata_args(url: Seq<char>, cookies_browser: Option<Seq<char>>) -> Seq<
    Seq<char>,
> {
    let base = seq!["-J"@, "--no-playlist"@, "--no-warnings"@] + platform_args(platform_of(url))
        + seq![url];
    match cookies_browser {
        Some(b) => if b.len() > 0 {
            base + seq!["--cookies-from-browser"@, b]
        } else {
            base
        },
        None => base,
    }
}

/// The arguments of the yt-dlp metadata query.
pub fn metadata_command_args(normalized_url: &str, cookies_browser: Option<&str>) -> (r: Vec<String>)
    ensures
        strings_view(r@) == metadata_args(normalized_url@, opt_str_view(cookies_browser)),
{
    let mut args: Vec<String> = Vec::new();
    push_owned(&mut args, "-J");
    push_owned(&mut args, "--no-playlist");
    push_owned(&mut args, "--no-warnings");
    let mut platform = args_for_platform(detect_platform(normalized_url));
    let ghost pv = strings_view(platform@);
    let ghost base = strings_view(args@);
    let mut i: usize = 0;
    while i < platform.len()
        invariant
            0 <= i <= platform.len(),
            strings_view(platform@) == pv,
            strings_view(args@) == base + pv.take(i as int),
        decreases platform.len() - i,
    {
        push_owned(&mut args, platform[i].as_str());
        assert(pv.take(i + 1) =~= pv.take(i as int).push(pv[i as int]));
        assert(strings_view(args@) =~= base + pv.take(i + 1));
        i = i + 1;
    }
    assert(pv.take(pv.len() as int) =~= pv);
    push_owned(&mut args, normalized_url);
    match cookies_browser {
        Some(b) => {
            if !b.is_empty() {
                push_owned(&mut args, "--cookies-from-browser");
                push_owned(&mut args, b);
            }
        },
        None => {},
    }
    assert(strings_view(args@) =~= metadata_args(normalized_url@, opt_str_view(cookies_browser)));
    args
}

// ---------------------------------------------------------------------------
// oEmbed and OpenGraph
// ---------------------------------------------------------------------------

/// What `form_urlencoded::byte_serialize` returns for the UTF-8 bytes of a string.
pub uninterp spec fn url_form_encoded(s: Seq<char>) -> Seq<char>;

/// `url::form_urlencoded::byte_serialize`, collected into a `String`: the
/// contract claims only that the result is a fixed function of the input, named
/// `url_form_encoded`.
#[verifier::external_body]
fn form_urlencode(s: &str) -> (r: String)
    ensures
        r@ == url_form_encoded(s@),
{
    url::form_urlencoded::byte_serialize(s.as_bytes()).collect()
}

/// What the `regex` crate captures of `pattern` in a text: every group of the
/// first match in order, group 0 being the whole match, and `None` for a group
/// that took no part (`None` overall: no match, or the pattern does not compile).
pub uninterp spec fn regex_captures_of(pattern: Seq<char>, text: Seq<char>) -> Option<
    Seq<Option<Seq<char>>>,
>;

/// The view of captured groups.
pub open spec fn groups_view(v: Seq<Option<String>>) -> Seq<Option<Seq<char>>> {
    v.map_values(|g: Option<String>| ov(g))
}

/// `Regex::new(pattern)` and `captures(text)`, each group taken as an owned
/// string: the contract claims only that the result is a fixed function of the
/// arguments, named `regex_captures_of`.
#[verifier::external_body]
pub(crate) fn regex_captures(pattern: &str, text: &str) -> (r: Option<Vec<Option<String>>>)
    ensures
        match r {
            Some(g) => regex_captures_of(pattern@, text@) == Some(groups_view(g@)),
            None => regex_captures_of(pattern@, text@) is None,
        },
{
    let re = regex::Regex::new(pattern).ok()?;
    let caps = re.captures(text)?;
    Some(caps.iter().map(|m| m.map(|m| m.as_str().to_string())).collect())
}

/// Group `i` of a capture, if the pattern matched and the group took part.
pub open spec fn capture_group(caps: Option<Seq<Option<Seq<char>>>>, i: int) -> Option<Seq<char>> {
    match caps {
        Some(g) => if 0 <= i < g.len() {
            g[i]
        } else {
            None
        },
        None => None,
    }
}

/// The first group of the first match of `pattern` in `text`.
fn first_capture(pattern: &str, text: &str) -> (r: Option<String>)
    ensures
        ov(r) == capture_group(regex_captures_of(pattern@, text@), 1),
{
    match regex_captures(pattern, text) {
        Some(groups) => {
            let mut groups = groups;
            if groups.len() > 1 {
                groups.remove(1)
            } else {
                None
            }
        },
        None => None,
    }
}

/// Where the metadata of a link is looked up when yt-dlp cannot be used.
pub enum MetadataSource {
    /// An oEmbed endpoint, with the page's OpenGraph tags as the fallback where
    /// `opengraph_fallback` holds.
    Oembed { endpoint: String, extractor: &'static str, opengraph_fallback: bool },
    /// The page's OpenGraph tags.
    OpenGraph { extractor: &'static str },
}

/// The view of a metadata source: endpoint (empty for OpenGraph), extractor, fallback.
pub open spec fn source_view(s: MetadataSource) -> (Option<Seq<char>>, Seq<char>, bool) {
    match s {
        MetadataSource::Oembed { endpoint, extractor, opengraph_fallback } => (
            Some(endpoint@),
            extractor@,
            opengraph_fallback,
        ),
        MetadataSource::OpenGraph { extractor } => (None, extractor@, true),
    }
}

/// The metadata source of a platform, for a link already form-encoded.
pub open spec fn source_for(p: Platform, encoded: Seq<char>) -> (Option<Seq<char>>, Seq<char>, bool) {
    match p {
        Platform::YouTube => (
            Some("https://www.youtube.com/oembed?url="@ + encoded + "&format=json"@),
            "youtube"@,
            false,
        ),
        Platform::Vimeo => (Some("https://vimeo.com/api/oembed.json?url="@ + encoded), "vimeo"@, false),
        Platform::TikTok => (Some("https://www.tiktok.com/oembed?url="@ + encoded), "tiktok"@, false),
        Platform::Instagram => (
            Some("https://www.instagram.com/oembed/?url="@ + encoded),
            "instagram"@,
            true,
        ),
        Platform::Facebook => (
            Some("https://www.facebook.com/plugins/video/oembed.json?url="@ + encoded),
            "facebook"@,
            true,
        ),
        Platform::Generic => (None, "generic"@, true),
    }
}

/// The metadata source of a platform, for a link already form-encoded.
pub fn metadata_source_for(platform: Platform, encoded_url: &str) -> (r: MetadataSource)
    ensures
        source_view(r) == source_for(platform, encoded_url@),
{
    match platform {
        Platform::YouTube => {
            let a = concat("https://www.youtube.com/oembed?url=", encoded_url);
            MetadataSource::Oembed {
                endpoint: concat(a.as_str(), "&format=json"),
                extractor: "youtube",
                opengraph_fallback: false,
            }
        },
        Platform::Vimeo => MetadataSource::Oembed {
            endpoint: concat("https://vimeo.com/api/oembed.json?url=", encoded_url),
            extractor: "vimeo",
            opengraph_fallback: false,
        },
        Platform::TikTok => MetadataSource::Oembed {
            endpoint: concat("https://www.tiktok.com/oembed?url=", encoded_url),
            extractor: "tiktok",
            opengraph_fallback: false,
        },
        Platform::Instagram => MetadataSource::Oembed {
            endpoint: concat("https://www.instagram.com/oembed/?url=", encoded_url),
            extractor: "instagram",
            opengraph_fallback: true,
        },
        Platform::Facebook => MetadataSource::Oembed {
            endpoint: concat("https://www.facebook.com/plugins/video/oembed.json?url=", encoded_url),
            extractor: "facebook",
            opengraph_fallback: true,
        },
        Platform::Generic => MetadataSource::OpenGraph { extractor: "generic" },
    }
}

/// The normalized link and where its metadata is looked up without yt-dlp.
pub fn plan_metadata_lookup(url: &str) -> (r: (String, MetadataSource))
    ensures
        r.0@ == normalized_url(url@),
        source_view(r.1) == source_for(platform_of(r.0@), url_form_encoded(r.0@)),
{
    let normalized = normalize_url(url);
    let platform = detect_platform(normalized.as_str());
    let encoded = form_urlencode(normalized.as_str());
    let source = metadata_source_for(platform, encoded.as_str());
    (normalized, source)
}

/// A page title: the captured one, else `<EXTRACTOR> Media`.
pub open spec fn title_or_fallback(captured: Option<Seq<char>>, extractor: Seq<char>) -> Seq<char> {
    match captured {
        Some(t) => t,
        None => str_to_uppercase(extractor) + " Media"@,
    }
}

/// The title an OpenGraph page gives (`og:title`), else `<EXTRACTOR> Media`.
pub open spec fn opengraph_title_of(html: Seq<char>, extractor: Seq<char>) -> Seq<char> {
    title_or_fallback(
        capture_group(
            regex_captures_of("<meta\\s+property=\"og:title\"\\s+content=\"([^\"]+)\""@, html),
            1,
        ),
        extractor,
    )
}

/// The title of a page from the `og:title` content captured in it, if any.
pub fn title_from_capture(captured: Option<String>, extractor: &str) -> (r: String)
    ensures
        r@ == title_or_fallback(ov(captured), extractor@),
{
    match captured {
        Some(t) => t,
        None => {
            let mut r = to_uppercase(extractor);
            push_str(&mut r, " Media");
            r
        },
    }
}

/// The title of a page from its OpenGraph tags.
pub fn opengraph_title(html: &str, extractor: &str) -> (r: String)
    ensures
        r@ == opengraph_title_of(html@, extractor@),
{
    title_from_capture(
        first_capture("<meta\\s+property=\"og:title\"\\s+content=\"([^\"]+)\"", html),
        extractor,
    )
}

/// The thumbnail of a page from its OpenGraph tags (`og:image`).
pub fn opengraph_thumbnail(html: &str) -> (r: Option<String>)
    ensures
        ov(r) == capture_group(
            regex_captures_of("<meta\\s+property=\"og:image\"\\s+content=\"([^\"]+)\""@, html@),
            1,
        ),
{
    first_capture("<meta\\s+property=\"og:image\"\\s+content=\"([^\"]+)\"", html)
}

// ---------------------------------------------------------------------------
// The engine
// ---------------------------------------------------------------------------

/// Runs yt-dlp, found through a `BinManager` or at a custom path.
pub struct YtDlpEngine {
    pub bin_manager: BinManager,
    pub custom_path: Option<String>,
}

impl YtDlpEngine {
    /// Creates a new yt-dlp execution engine.
    pub fn new(bin_manager: BinManager, custom_path: Option<String>) -> (r: Self)
        ensures
            r.bin_manager == bin_manager,
            r.custom_path == custom_path,
    {
        Self { bin_manager, custom_path }
    }

    /// The yt-dlp executable to run, resolved with `search_path` as the `PATH` value.
    pub fn get_executable_path(&self, search_path: Option<&str>) -> (r: Result<PathBuf, BinaryError>)
        ensures
            r matches Err(e) ==> e == BinaryError::YtDlpNotFound,
            r matches Ok(p) ==> bin_manager::offers(
                self.bin_manager.yt_dlp_plan(
                    match self.custom_path {
                        Some(c) => Some(c@),
                        None => None,
                    },
                    opt_str_view(search_path),
                ),
                p,
            ),
    {
        let custom = match &self.custom_path {
            Some(p) => Some(p.as_str()),
            None => None,
        };
        self.bin_manager.resolve_yt_dlp_binary(custom, search_path)
    }
}

} // verus!
