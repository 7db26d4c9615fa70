//! The metadata of a media item as `yt-dlp -J` prints it: the JSON document is
//! parsed by `serde_json`, and its fields are read with the defaults the
//! application shows.
use vstd::prelude::*;
use serde_json::Value;

use crate::text::{owned, str_to_lowercase, to_lowercase};
use super::{chosen_thumbnail, choose_thumbnail, direct_media_format, media_format_from_fields, ov, MediaFormat};

verus! {

#[verifier::external_type_specification]
#[verifier::external_body]
pub struct ExJsonValue(Value);

/// What `serde_json::from_slice` parses a byte string into (`None`: not JSON).
pub uninterp spec fn json_parsed(bytes: Seq<u8>) -> Option<Value>;

/// What `value[key].as_str()` gives: the string at `key` of a JSON object.
pub uninterp spec fn json_text_at(v: Value, key: Seq<char>) -> Option<Seq<char>>;

/// What `value[key].as_i64()` gives: the integer at `key` of a JSON object.
pub uninterp spec fn json_int_at(v: Value, key: Seq<char>) -> Option<i64>;

/// What `value[key].as_array()` holds, empty where `key` holds no array.
pub uninterp spec fn json_array_at(v: Value, key: Seq<char>) -> Seq<Value>;

/// `serde_json::from_slice` into a `Value`: the contract claims only that the
/// result is a fixed function of the bytes, named `json_parsed`.
#[verifier::external_body]
fn parse_json(bytes: &[u8]) -> (r: Option<Value>)
    ensures
        r == json_parsed(bytes@),
{
    serde_json::from_slice(bytes).ok()
}

/// `value[key].as_str()`, owned: the contract claims only that the result is a
/// fixed function of the value and the key, named `json_text_at`.
#[verifier::external_body]
fn json_text(v: &Value, key: &str) -> (r: Option<String>)
    ensures
        ov(r) == json_text_at(*v, key@),
{
    v[key].as_str().map(String::from)
}

/// `value[key].as_i64()`: the contract claims only that the result is a fixed
/// function of the value and the key, named `json_int_at`.
#[verifier::external_body]
fn json_int(v: &Value, key: &str) -> (r: Option<i64>)
    ensures
        r == json_int_at(*v, key@),
{
    v[key].as_i64()
}

/// `value[key].as_array()`, its items cloned (none where there is no array):
/// the contract claims only that the result is a fixed function of the value
/// and the key, named `json_array_at`.
#[verifier::external_body]
fn json_array(v: &Value, key: &str) -> (r: Vec<Value>)
    ensures
        r@ == json_array_at(*v, key@),
{
    v[key].as_array().cloned().unwrap_or_default()
}

/// The view of a media format.
pub struct MediaFormatView {
    pub format_id: Seq<char>,
    pub ext: Seq<char>,
    pub resolution: Option<Seq<char>>,
    pub filesize: Option<i64>,
    pub vcodec: Option<Seq<char>>,
    pub acodec: Option<Seq<char>>,
    pub note: Option<Seq<char>>,
}

/// The view of a media format.
pub open spec fn format_view(f: MediaFormat) -> MediaFormatView {
    MediaFormatView {
        format_id: f.format_id@,
        ext: f.ext@,
        resolution: ov(f.resolution),
        filesize: f.filesize,
        vcodec: ov(f.vcodec),
        acodec: ov(f.acodec),
        note: ov(f.note),
    }
}

/// The format an item of `formats` describes: none without a `format_id`,
/// `mp4` where no extension is given, the approximate size where no exact one is.
pub open spec fn format_of(item: Value) -> Option<MediaFormatView> {
    match json_text_at(item, "format_id"@) {
        None => None,
        Some(id) => Some(
            MediaFormatView {
                format_id: id,
                ext: match json_text_at(item, "ext"@) {
                    Some(e) => e,
                    None => "mp4"@,
                },
                resolution: json_text_at(item, "resolution"@),
                filesize: match json_int_at(item, "filesize"@) {
                    Some(n) => Some(n),
                    None => json_int_at(item, "filesize_approx"@),
                },
                vcodec: json_text_at(item, "vcodec"@),
                acodec: json_text_at(item, "acodec"@),
                note: json_text_at(item, "format_note"@),
            },
        ),
    }
}

/// The formats of the items that describe one, in order.
pub open spec fn formats_of(items: Seq<Value>) -> Seq<MediaFormatView>
    decreases items.len(),
{
    if items.len() == 0 {
        Seq::empty()
    } else {
        let r = formats_of(items.drop_last());
        match format_of(items.last()) {
            Some(f) => r.push(f),
            None => r,
        }
    }
}

/// The `url` of each thumbnail item that has one, in order.
pub open spec fn thumbnail_urls_of(items: Seq<Value>) -> Seq<Seq<char>>
    decreases items.len(),
{
    if items.len() == 0 {
        Seq::empty()
    } else {
        let r = thumbnail_urls_of(items.drop_last());
        match json_text_at(items.last(), "url"@) {
            Some(u) => r.push(u),
            None => r,
        }
    }
}

/// What the application shows of a media item, its duration aside.
pub struct MetadataFields {
    pub title: String,
    pub description: Option<String>,
    pub uploader: Option<String>,
    pub uploader_url: Option<String>,
    pub thumbnail_url: Option<String>,
    pub webpage_url: String,
    pub formats: Vec<MediaFormat>,
    pub extractor: String,
}

/// The view of the metadata fields.
pub struct MetadataFieldsView {
    pub title: Seq<char>,
    pub description: Option<Seq<char>>,
    pub uploader: Option<Seq<char>>,
    pub uploader_url: Option<Seq<char>>,
    pub thumbnail_url: Option<Seq<char>>,
    pub webpage_url: Seq<char>,
    pub formats: Seq<MediaFormatView>,
    pub extractor: Seq<char>,
}

impl View for MetadataFields {
    type V = MetadataFieldsView;

    open spec fn view(&self) -> MetadataFieldsView {
        MetadataFieldsView {
            title: self.title@,
            description: ov(self.description),
            uploader: ov(self.uploader),
            uploader_url: ov(self.uploader_url),
            thumbnail_url: ov(self.thumbnail_url),
            webpage_url: self.webpage_url@,
            formats: self.formats@.map_values(|f: MediaFormat| format_view(f)),
            extractor: self.extractor@,
        }
    }
}

/// The metadata a `yt-dlp -J` document gives for a normalized link: the title
/// (`Untitled Video` where none is given), description, uploader and its page,
/// the thumbnail (the `thumbnail` field, else the last listed one), the page
/// (the link itself where none is given), the formats that have an id, and the
/// lower-cased extractor key (`generic` where none is given).
pub open spec fn metadata_of(v: Value, url: Seq<char>) -> MetadataFieldsView {
    MetadataFieldsView {
        title: match json_text_at(v, "title"@) {
            Some(t) => t,
            None => "Untitled Video"@,
        },
        description: json_text_at(v, "description"@),
        uploader: json_text_at(v, "uploader"@),
        uploader_url: json_text_at(v, "uploader_url"@),
        thumbnail_url: chosen_thumbnail(
            json_text_at(v, "thumbnail"@),
            thumbnail_urls_of(json_array_at(v, "thumbnails"@)),
        ),
        webpage_url: match json_text_at(v, "webpage_url"@) {
            Some(w) => w,
            None => url,
        },
        formats: formats_of(json_array_at(v, "formats"@)),
        extractor: str_to_lowercase(
            match json_text_at(v, "extractor_key"@) {
                Some(k) => k,
                None => "generic"@,
            },
        ),
    }
}

/// The formats of a list of items.
fn formats_from_items(items: &Vec<Value>) -> (r: Vec<MediaFormat>)
    ensures
        r@.map_values(|f: MediaFormat| format_view(f)) == formats_of(items@),
{
    let mut r: Vec<MediaFormat> = Vec::new();
    let mut i: usize = 0;
    while i < items.len()
        invariant
            0 <= i <= items.len(),
            r@.map_values(|f: MediaFormat| format_view(f)) == formats_of(items@.take(i as int)),
        decreases items.len() - i,
    {
        let item = &items[i];
        let f = media_format_from_fields(
            json_text(item, "format_id"),
            json_text(item, "ext"),
            json_text(item, "resolution"),
            json_int(item, "filesize"),
            json_int(item, "filesize_approx"),
            json_text(item, "vcodec"),
            json_text(item, "acodec"),
            json_text(item, "format_note"),
        );
        let ghost before = r@;
        proof {
            assert(items@.take(i + 1).drop_last() =~= items@.take(i as int));
            assert(items@.take(i + 1).last() == items@[i as int]);
        }
        match f {
            Some(fmt) => {
                proof {
                    assert(format_of(*item) == Some(format_view(fmt)));
                }
                r.push(fmt);
                assert(r@.map_values(|f: MediaFormat| format_view(f)) =~= before.map_values(
                    |f: MediaFormat| format_view(f),
                ).push(format_view(r@.last())));
            },
            None => {},
        }
        i = i + 1;
    }
    assert(items@.take(items@.len() as int) =~= items@);
    r
}

/// The `url` of each thumbnail item that has one.
fn thumbnail_urls(items: &Vec<Value>) -> (r: Vec<String>)
    ensures
        crate::text::strings_view(r@) == thumbnail_urls_of(items@),
{
    let mut r: Vec<String> = Vec::new();
    let mut i: usize = 0;
    while i < items.len()
        invariant
            0 <= i <= items.len(),
            crate::text::strings_view(r@) == thumbnail_urls_of(items@.take(i as int)),
        decreases items.len() - i,
    {
        let ghost before = r@;
        proof {
            assert(items@.take(i + 1).drop_last() =~= items@.take(i as int));
            assert(items@.take(i + 1).last() == items@[i as int]);
        }
        match json_text(&items[i], "url") {
            Some(u) => {
                r.push(u);
                assert(crate::text::strings_view(r@) =~= crate::text::strings_view(before).push(
                    r@.last()@,
                ));
            },
            None => {},
        }
        i = i + 1;
    }
    assert(items@.take(items@.len() as int) =~= items@);
    r
}

/// The metadata a parsed `yt-dlp -J` document gives for a normalized link.
pub fn metadata_fields_of(v: &Value, normalized_url: &str) -> (r: MetadataFields)
    ensures
        r@ == metadata_of(*v, normalized_url@),
{
    let title = match json_text(v, "title") {
        Some(t) => t,
        None => owned("Untitled Video"),
    };
    let webpage_url = match json_text(v, "webpage_url") {
        Some(w) => w,
        None => owned(normalized_url),
    };
    let key = match json_text(v, "extractor_key") {
        Some(k) => k,
        None => owned("generic"),
    };
    let thumbs = json_array(v, "thumbnails");
    let items = json_array(v, "formats");
    MetadataFields {
        title,
        description: json_text(v, "description"),
        uploader: json_text(v, "uploader"),
        uploader_url: json_text(v, "uploader_url"),
        thumbnail_url: choose_thumbnail(json_text(v, "thumbnail"), thumbnail_urls(&thumbs)),
        webpage_url,
        formats: formats_from_items(&items),
        extractor: to_lowercase(key.as_str()),
    }
}

/// The metadata in the output of `yt-dlp -J` for a normalized link; `None`
/// where the output is not JSON.
pub fn metadata_fields_from_json(stdout: &[u8], normalized_url: &str) -> (r: Option<MetadataFields>)
    ensures
        match json_parsed(stdout@) {
            None => r is None,
            Some(v) => r matches Some(m) && m@ == metadata_of(v, normalized_url@),
        },
{
    match parse_json(stdout) {
        Some(v) => Some(metadata_fields_of(&v, normalized_url)),
        None => None,
    }
}

/// The single format offered for oEmbed metadata: the best stream, MP4, H.264
/// and AAC, with the given note.
pub open spec fn direct_format_view(note: Seq<char>) -> MediaFormatView {
    MediaFormatView {
        format_id: "best"@,
        ext: "mp4"@,
        resolution: Some("Auto"@),
        filesize: None,
        vcodec: Some("h264"@),
        acodec: Some("aac"@),
        note: Some(note),
    }
}

/// The metadata an oEmbed document gives for a page: the title (`Untitled
/// Media` where none is given), the author and its page as uploader, the
/// thumbnail, the page itself, the direct download format, and the extractor.
pub open spec fn oembed_of(v: Value, webpage_url: Seq<char>, extractor: Seq<char>) -> MetadataFieldsView {
    MetadataFieldsView {
        title: match json_text_at(v, "title"@) {
            Some(t) => t,
            None => "Untitled Media"@,
        },
        description: None,
        uploader: json_text_at(v, "author_name"@),
        uploader_url: json_text_at(v, "author_url"@),
        thumbnail_url: json_text_at(v, "thumbnail_url"@),
        webpage_url: webpage_url,
        formats: seq![direct_format_view("Direct download format"@)],
        extractor: extractor,
    }
}

/// The metadata a parsed oEmbed document gives for a page.
pub fn oembed_fields_of(v: &Value, webpage_url: &str, extractor: &str) -> (r: MetadataFields)
    ensures
        r@ == oembed_of(*v, webpage_url@, extractor@),
{
    let title = match json_text(v, "title") {
        Some(t) => t,
        None => owned("Untitled Media"),
    };
    let mut formats: Vec<MediaFormat> = Vec::new();
    let f = direct_media_format("Direct download format");
    formats.push(f);
    let r = MetadataFields {
        title,
        description: None,
        uploader: json_text(v, "author_name"),
        uploader_url: json_text(v, "author_url"),
        thumbnail_url: json_text(v, "thumbnail_url"),
        webpage_url: owned(webpage_url),
        formats,
        extractor: owned(extractor),
    };
    assert(r@.formats =~= seq![direct_format_view("Direct download format"@)]);
    r
}

/// The metadata in an oEmbed response body for a page; `None` where the body
/// is not JSON.
pub fn oembed_fields_from_json(body: &[u8], webpage_url: &str, extractor: &str) -> (r: Option<
    MetadataFields,
>)
    ensures
        match r {
            Some(f) => json_parsed(body@) is Some && f@ == oembed_of(
                json_parsed(body@)->0,
                webpage_url@,
                extractor@,
            ),
            None => json_parsed(body@) is None,
        },
{
    match parse_json(body) {
        Some(v) => Some(oembed_fields_of(&v, webpage_url, extractor)),
        None => None,
    }
}

} // verus!
