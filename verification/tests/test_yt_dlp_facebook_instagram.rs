use fetchr_core::capabilities::get_capabilities;
use fetchr_core::url_normalizer::{detect_platform, Platform};

#[test]
fn test_instagram_capabilities_detection() {
    let caps = get_capabilities("https://www.instagram.com/reel/C123456789/");
    assert_eq!(caps.platform_name, "Instagram");
    assert!(caps.supports_audio);
    assert!(caps.supports_login);
    assert!(!caps.supports_playlists);
}

#[test]
fn test_facebook_capabilities_detection() {
    let caps = get_capabilities("https://www.facebook.com/reel/987654321/");
    assert_eq!(caps.platform_name, "Facebook");
    assert!(caps.supports_audio);
    assert!(caps.supports_login);
    assert!(!caps.supports_playlists);
}

#[test]
fn capabilities_of_other_platforms() {
    let yt = get_capabilities("https://youtu.be/x");
    assert_eq!(yt.platform_name, "YouTube");
    assert!(yt.supports_playlists && yt.supports_subtitles);
    let tt = get_capabilities("https://www.TikTok.com/@u/video/1");
    assert_eq!(tt.platform_name, "TikTok");
    assert!(!tt.supports_login);
    let vi = get_capabilities("https://vimeo.com/1");
    assert_eq!(vi.platform_name, "Vimeo");
    assert!(vi.supports_subtitles);
    let other = get_capabilities("https://example.com/v.mp4");
    assert_eq!(other.platform_name, "Generic Link");
    assert!(other.supports_audio && other.supports_login);
}

#[test]
fn capabilities_name_the_detected_platform() {
    let expected = |p: Platform| match p {
        Platform::YouTube => "YouTube",
        Platform::Instagram => "Instagram",
        Platform::Facebook => "Facebook",
        Platform::TikTok => "TikTok",
        Platform::Vimeo => "Vimeo",
        Platform::Generic => "Generic Link",
    };
    for url in [
        "https://youtu.be/abc",
        "https://WWW.INSTAGRAM.COM/p/1/",
        "https://fb.watch/xyz/",
        "https://www.tiktok.com/@u/video/1",
        "https://vimeo.com/42",
        "https://example.org/clip.mp4",
    ] {
        assert_eq!(get_capabilities(url).platform_name, expected(detect_platform(url)));
    }
    assert_eq!(detect_platform("https://instagr.am/p/1/"), Platform::Instagram);
    assert_eq!(get_capabilities("https://instagr.am/p/1/").platform_name, "Generic Link");
}
