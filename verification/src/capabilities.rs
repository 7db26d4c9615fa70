//! What each supported platform offers: audio, subtitles, playlists, logins.
use vstd::prelude::*;

use crate::text::{contains, contains_seq, owned, str_to_lowercase, to_lowercase};
use crate::url_normalizer::{platform_of, Platform};

verus! {

/// The features a platform supports.
pub struct PlatformCapabilities {
    pub platform_name: String,
    pub supports_audio: bool,
    pub supports_subtitles: bool,
    pub supports_playlists: bool,
    pub supports_login: bool,
}

/// The view of `PlatformCapabilities`.
pub struct CapabilitiesView {
    pub platform_name: Seq<char>,
    pub supports_audio: bool,
    pub supports_subtitles: bool,
    pub supports_playlists: bool,
    pub supports_login: bool,
}

impl View for PlatformCapabilities {
    type V = CapabilitiesView;

    open spec fn view(&self) -> CapabilitiesView {
        CapabilitiesView {
            platform_name: self.platform_name@,
            supports_audio: self.supports_audio,
            supports_subtitles: self.supports_subtitles,
            supports_playlists: self.supports_playlists,
            supports_login: self.supports_login,
        }
    }
}

/// The capabilities named by an already lower-cased URL.
pub open spec fn capabilities_of_lower(l: Seq<char>) -> CapabilitiesView {
    if contains_seq(l, "youtube.com"@) || contains_seq(l, "youtu.be"@) {
        CapabilitiesView {
            platform_name: "YouTube"@,
            supports_audio: true,
            supports_subtitles: true,
            supports_playlists: true,
            supports_login: true,
        }
    } else if contains_seq(l, "instagram.com"@) {
        CapabilitiesView {
            platform_name: "Instagram"@,
            supports_audio: true,
            supports_subtitles: false,
            supports_playlists: false,
            supports_login: true,
        }
    } else if contains_seq(l, "facebook.com"@) || contains_seq(l, "fb.watch"@) {
        CapabilitiesView {
            platform_name: "Facebook"@,
            supports_audio: true,
            supports_subtitles: false,
            supports_playlists: false,
            supports_login: true,
        }
    } else if contains_seq(l, "tiktok.com"@) {
        CapabilitiesView {
            platform_name: "TikTok"@,
            supports_audio: true,
            supports_subtitles: false,
            supports_playlists: false,
            supports_login: false,
        }
    } else if contains_seq(l, "vimeo.com"@) {
        CapabilitiesView {
            platform_name: "Vimeo"@,
            supports_audio: true,
            supports_subtitles: true,
            supports_playlists: false,
            supports_login: true,
        }
    } else {
        CapabilitiesView {
            platform_name: "Generic Link"@,
            supports_audio: true,
            supports_subtitles: false,
            supports_playlists: false,
            supports_login: true,
        }
    }
}

/// The capabilities of a URL.
pub open spec fn capabilities_of(url: Seq<char>) -> CapabilitiesView {
    capabilities_of_lower(str_to_lowercase(url))
}

fn caps(name: &str, audio: bool, subtitles: bool, playlists: bool, login: bool) -> (r:
    PlatformCapabilities)
    ensures
        r@ == (CapabilitiesView {
            platform_name: name@,
            supports_audio: audio,
            supports_subtitles: subtitles,
            supports_playlists: playlists,
            supports_login: login,
        }),
{
    PlatformCapabilities {
        platform_name: owned(name),
        supports_audio: audio,
        supports_subtitles: subtitles,
        supports_playlists: playlists,
        supports_login: login,
    }
}

/// The capabilities named by a URL that is already lower-cased.
pub fn capabilities_for_lowercased(lower: &str) -> (r: PlatformCapabilities)
    ensures
        r@ == capabilities_of_lower(lower@),
{
    if contains(lower, "youtube.com") || contains(lower, "youtu.be") {
        caps("YouTube", true, true, true, true)
    } else if contains(lower, "instagram.com") {
        caps("Instagram", true, false, false, true)
    } else if contains(lower, "facebook.com") || contains(lower, "fb.watch") {
        caps("Facebook", true, false, false, true)
    } else if contains(lower, "tiktok.com") {
        caps("TikTok", true, false, false, false)
    } else if contains(lower, "vimeo.com") {
        caps("Vimeo", true, true, false, true)
    } else {
        caps("Generic Link", true, false, false, true)
    }
}

/// Detects the capabilities of a platform from the domain of a URL.
pub fn get_capabilities(url: &str) -> (r: PlatformCapabilities)
    ensures
        r@ == capabilities_of(url@),
{
    let lower = to_lowercase(url);
    capabilities_for_lowercased(lower.as_str())
}

/// The name `get_capabilities` reports for each detected platform.
pub open spec fn display_name(p: Platform) -> Seq<char> {
    match p {
        Platform::YouTube => "YouTube"@,
        Platform::Instagram => "Instagram"@,
        Platform::Facebook => "Facebook"@,
        Platform::TikTok => "TikTok"@,
        Platform::Vimeo => "Vimeo"@,
        Platform::Generic => "Generic Link"@,
    }
}

/// `get_capabilities` names the platform that `detect_platform` detects, for
/// every URL outside the two short domains `instagr.am` and `fb.com`, which only
/// `detect_platform` knows.
pub proof fn lemma_capabilities_name_detected_platform(url: Seq<char>)
    requires
        !contains_seq(str_to_lowercase(url), "instagr.am"@),
        !contains_seq(str_to_lowercase(url), "fb.com"@),
    ensures
        capabilities_of(url).platform_name == display_name(platform_of(url)),
{
}

/// A URL whose lower-cased form contains `tiktok.com`, and none of the YouTube,
/// Instagram or Facebook domains, is reported as TikTok: audio, no subtitles,
/// playlists or login.
pub proof fn lemma_tiktok_capabilities(url: Seq<char>)
    requires
        ({
            let l = str_to_lowercase(url);
            &&& contains_seq(l, "tiktok.com"@)
            &&& !contains_seq(l, "youtube.com"@)
            &&& !contains_seq(l, "youtu.be"@)
            &&& !contains_seq(l, "instagram.com"@)
            &&& !contains_seq(l, "facebook.com"@)
            &&& !contains_seq(l, "fb.watch"@)
        }),
    ensures
        capabilities_of(url).platform_name == "TikTok"@,
        capabilities_of(url).supports_audio,
        !capabilities_of(url).supports_subtitles,
        !capabilities_of(url).supports_playlists,
        !capabilities_of(url).supports_login,
{
}

/// A URL is reported as YouTube by `get_capabilities` exactly when
/// `detect_platform` detects YouTube.
pub proof fn lemma_youtube_detection_agrees(url: Seq<char>)
    ensures
        (capabilities_of(url).platform_name == "YouTube"@) <==> (platform_of(url)
            == Platform::YouTube),
{
    reveal_strlit("YouTube");
    reveal_strlit("Instagram");
    reveal_strlit("Facebook");
    reveal_strlit("TikTok");
    reveal_strlit("Vimeo");
    reveal_strlit("Generic Link");
    assert("Instagram"@.len() != "YouTube"@.len());
    assert("Facebook"@.len() != "YouTube"@.len());
    assert("TikTok"@.len() != "YouTube"@.len());
    assert("Vimeo"@.len() != "YouTube"@.len());
    assert("Generic Link"@.len() != "YouTube"@.len());
}

} // verus!
