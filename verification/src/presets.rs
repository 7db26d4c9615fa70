//! The built-in creator presets: which streams to select and how to merge them.
use vstd::prelude::*;

use crate::text::{eq_str, owned};

verus! {

/// A download preset.
pub struct Preset {
    pub id: String,
    pub name: String,
    pub description: String,
    pub format_filter: String,
    pub merge_format: Option<String>,
    pub extract_audio: bool,
    pub audio_format: Option<String>,
    pub is_custom: bool,
}

/// The view of a `Preset`.
pub struct PresetView {
    pub id: Seq<char>,
    pub name: Seq<char>,
    pub description: Seq<char>,
    pub format_filter: Seq<char>,
    pub merge_format: Option<Seq<char>>,
    pub extract_audio: bool,
    pub audio_format: Option<Seq<char>>,
    pub is_custom: bool,
}

/// The view of an optional string.
pub open spec fn opt_string_view(o: Option<String>) -> Option<Seq<char>> {
    match o {
        Some(s) => Some(s@),
        None => None,
    }
}

impl View for Preset {
    type V = PresetView;

    open spec fn view(&self) -> PresetView {
        PresetView {
            id: self.id@,
            name: self.name@,
            description: self.description@,
            format_filter: self.format_filter@,
            merge_format: opt_string_view(self.merge_format),
            extract_audio: self.extract_audio,
            audio_format: opt_string_view(self.audio_format),
            is_custom: self.is_custom,
        }
    }
}

/// The view of a list of presets.
pub open spec fn presets_view(v: Seq<Preset>) -> Seq<PresetView> {
    v.map_values(|p: Preset| p@)
}

/// The five built-in presets, in order.
pub open spec fn default_presets() -> Seq<PresetView> {
    seq![
        PresetView {
            id: "editing"@,
            name: "Editing Quality (MKV / Raw)"@,
            description: "Lossless video/audio merges. Best for importing into Premiere / Resolve."@,
            format_filter: "bestvideo+bestaudio/best"@,
            merge_format: Some("mkv"@),
            extract_audio: false,
            audio_format: None,
            is_custom: false,
        },
        PresetView {
            id: "archive"@,
            name: "Archive Quality (MP4)"@,
            description: "Primes maximum resolutions available, merged cleanly to a standard MP4 container."@,
            format_filter: "bestvideo+bestaudio/best"@,
            merge_format: Some("mp4"@),
            extract_audio: false,
            audio_format: None,
            is_custom: false,
        },
        PresetView {
            id: "social"@,
            name: "Social Upload (H.264 / MP4)"@,
            description: "Highly compatible H.264/AAC output within typical social media specs."@,
            format_filter: "bestvideo[vcodec^=avc1]+bestaudio[acodec^=mp4a]/best[ext=mp4]/best"@,
            merge_format: Some("mp4"@),
            extract_audio: false,
            audio_format: None,
            is_custom: false,
        },
        PresetView {
            id: "audio"@,
            name: "Audio Extraction (MP3)"@,
            description: "Extracts highest bitrate audio stream and encodes it directly to 320kbps MP3."@,
            format_filter: "bestaudio/best"@,
            merge_format: None,
            extract_audio: true,
            audio_format: Some("mp3"@),
            is_custom: false,
        },
        PresetView {
            id: "storage_saver"@,
            name: "Storage Saver (720p MP4)"@,
            description: "Limits resolution to 720p or lower to save bandwidth and local SSD space."@,
            format_filter: "bestvideo[height<=720]+bestaudio/best"@,
            merge_format: Some("mp4"@),
            extract_audio: false,
            audio_format: None,
            is_custom: false,
        },
    ]
}

/// The first preset of `s` whose id is `id`.
pub open spec fn find_preset(s: Seq<PresetView>, id: Seq<char>) -> Option<PresetView>
    decreases s.len(),
{
    if s.len() == 0 {
        None
    } else if s[0].id == id {
        Some(s[0])
    } else {
        find_preset(s.drop_first(), id)
    }
}

fn preset(
    id: &str,
    name: &str,
    description: &str,
    format_filter: &str,
    merge_format: Option<&str>,
    extract_audio: bool,
    audio_format: Option<&str>,
) -> (p: Preset)
    ensures
        p@ == (PresetView {
            id: id@,
            name: name@,
            description: description@,
            format_filter: format_filter@,
            merge_format: match merge_format {
                Some(m) => Some(m@),
                None => None,
            },
            extract_audio,
            audio_format: match audio_format {
                Some(a) => Some(a@),
                None => None,
            },
            is_custom: false,
        }),
{
    Preset {
        id: owned(id),
        name: owned(name),
        description: owned(description),
        format_filter: owned(format_filter),
        merge_format: match merge_format {
            Some(m) => Some(owned(m)),
            None => None,
        },
        extract_audio,
        audio_format: match audio_format {
            Some(a) => Some(owned(a)),
            None => None,
        },
        is_custom: false,
    }
}

/// Retrieves all default creator presets.
pub fn get_default_presets() -> (r: Vec<Preset>)
    ensures
        presets_view(r@) == default_presets(),
{
    let mut v: Vec<Preset> = Vec::new();
    v.push(
        preset(
            "editing",
            "Editing Quality (MKV / Raw)",
            "Lossless video/audio merges. Best for importing into Premiere / Resolve.",
            "bestvideo+bestaudio/best",
            Some("mkv"),
            false,
            None,
        ),
    );
    v.push(
        preset(
            "archive",
            "Archive Quality (MP4)",
            "Primes maximum resolutions available, merged cleanly to a standard MP4 container.",
            "bestvideo+bestaudio/best",
            Some("mp4"),
            false,
            None,
        ),
    );
    v.push(
        preset(
            "social",
            "Social Upload (H.264 / MP4)",
            "Highly compatible H.264/AAC output within typical social media specs.",
            "bestvideo[vcodec^=avc1]+bestaudio[acodec^=mp4a]/best[ext=mp4]/best",
            Some("mp4"),
            false,
            None,
        ),
    );
    v.push(
        preset(
            "audio",
            "Audio Extraction (MP3)",
            "Extracts highest bitrate audio stream and encodes it directly to 320kbps MP3.",
            "bestaudio/best",
            None,
            true,
            Some("mp3"),
        ),
    );
    v.push(
        preset(
            "storage_saver",
            "Storage Saver (720p MP4)",
            "Limits resolution to 720p or lower to save bandwidth and local SSD space.",
            "bestvideo[height<=720]+bestaudio/best",
            Some("mp4"),
            false,
            None,
        ),
    );
    assert(presets_view(v@) =~= default_presets());
    v
}

/// The default preset with the given identifier, if there is one.
pub fn get_preset_by_id(id: &str) -> (r: Option<Preset>)
    ensures
        match r {
            Some(p) => find_preset(default_presets(), id@) == Some(p@),
            None => find_preset(default_presets(), id@) is None,
        },
{
    let mut all = get_default_presets();
    let ghost d = default_presets();
    let mut i: usize = 0;
    assert(d.skip(0) =~= d);
    while i < all.len()
        invariant
            0 <= i <= all.len(),
            presets_view(all@) == d,
            d == default_presets(),
            find_preset(d, id@) == find_preset(d.skip(i as int), id@),
        decreases all.len() - i,
    {
        assert(d.skip(i as int)[0] == all@[i as int]@);
        assert(d.skip(i as int).drop_first() =~= d.skip(i + 1));
        if eq_str(all[i].id.as_str(), id) {
            let p = all.remove(i);
            return Some(p);
        }
        i = i + 1;
    }
    assert(d.skip(i as int) =~= Seq::<PresetView>::empty());
    None
}

/// Every default preset is found by its own id, and has a non-empty id, name
/// and format selection.
pub proof fn lemma_default_presets_found_by_id(i: int)
    requires
        0 <= i < default_presets().len(),
    ensures
        find_preset(default_presets(), default_presets()[i].id) == Some(default_presets()[i]),
        default_presets()[i].id.len() > 0,
        default_presets()[i].name.len() > 0,
        default_presets()[i].format_filter.len() > 0,
{
    reveal_strlit("editing");
    reveal_strlit("archive");
    reveal_strlit("social");
    reveal_strlit("audio");
    reveal_strlit("storage_saver");
    reveal_strlit("Editing Quality (MKV / Raw)");
    reveal_strlit("Archive Quality (MP4)");
    reveal_strlit("Social Upload (H.264 / MP4)");
    reveal_strlit("Audio Extraction (MP3)");
    reveal_strlit("Storage Saver (720p MP4)");
    reveal_strlit("bestvideo+bestaudio/best");
    reveal_strlit("bestvideo[vcodec^=avc1]+bestaudio[acodec^=mp4a]/best[ext=mp4]/best");
    reveal_strlit("bestaudio/best");
    reveal_strlit("bestvideo[height<=720]+bestaudio/best");
    let d = default_presets();
    assert(d[0].id == "editing"@);
    assert(d[1].id == "archive"@);
    assert(d[2].id == "social"@);
    assert(d[3].id == "audio"@);
    assert(d[4].id == "storage_saver"@);
    assert(d[0].id[0] != d[1].id[0]);
    assert(d[0].id != d[1].id);
    assert(d[0].id != d[2].id);
    assert(d[0].id != d[3].id);
    assert(d[0].id != d[4].id);
    assert(d[1].id != d[2].id);
    assert(d[1].id != d[3].id);
    assert(d[1].id != d[4].id);
    assert(d[2].id != d[3].id);
    assert(d[2].id != d[4].id);
    assert(d[3].id != d[4].id);
    reveal_with_fuel(find_preset, 6);
    assert(d.drop_first()[0] == d[1]);
    assert(d.drop_first().drop_first()[0] == d[2]);
    assert(d.drop_first().drop_first().drop_first()[0] == d[3]);
    assert(d.drop_first().drop_first().drop_first().drop_first()[0] == d[4]);
}

} // verus!
