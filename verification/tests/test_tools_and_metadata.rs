use fetchr_core::yt_dlp::json_metadata::{metadata_fields_from_json, oembed_fields_from_json};
use fetchr_core::sha256::Sha256;
use fetchr_core::verification::{needs_content_checks, verification_verdict, FileEntry};
use fetchr_core::yt_dlp::bin_manager::{
    candidate_present, select_found, Candidate, select_h264_encoder, search_path_entries, standard_search_entries, BinManager, BinaryError,
    HostOs, UpdateChannel,
};
use fetchr_core::yt_dlp::progress_parser::{
    classify_postprocess_line, format_seconds, is_completion_line, plain_fields_from_groups,
    plain_progress_fields, progress_record, JsonProgressParser, PostprocessStage,
};
use fetchr_core::yt_dlp::{
    choose_thumbnail, direct_media_format, media_format_from_fields, metadata_command_args,
    metadata_source_for, opengraph_thumbnail, opengraph_title, plan_metadata_lookup, title_from_capture,
    MetadataSource, YtDlpEngine,
};
use fetchr_core::url_normalizer::Platform;

#[test]
fn remaining_times() {
    assert_eq!(format_seconds(5), "00:05");
    assert_eq!(format_seconds(84), "01:24");
    assert_eq!(format_seconds(3600), "01:00:00");
    assert_eq!(format_seconds(360000), "100:00:00");
    assert_eq!(format_seconds(-1), "--:--");
}

#[test]
fn progress_lines() {
    let p = JsonProgressParser;
    assert_eq!(p.payload("download-json:{\"a\":1}").as_deref(), Some("{\"a\":1}"));
    assert_eq!(p.payload("[download] 5%"), None);
    assert_eq!(classify_postprocess_line("[Merger] Merging"), Some(PostprocessStage::Transcoding));
    assert_eq!(
        classify_postprocess_line("[ExtractAudio] Destination"),
        Some(PostprocessStage::ExtractingAudio)
    );
    assert_eq!(classify_postprocess_line("[download] 5%"), None);
    assert!(is_completion_line("[download] 100% of 12.34MiB in 00:05"));
    assert!(!is_completion_line("[download]  23.4% of 10MiB"));
}

fn sha256_hex_of(pieces: &[&[u8]]) -> String {
    let mut h = Sha256::new();
    for p in pieces {
        h.update(p);
    }
    h.hex_digest()
}

#[test]
fn sha256_digests_of_known_messages() {
    assert_eq!(sha256_hex_of(&[]), "e3b0c44298fc1c149afbf4c8996fb92427ae41e4649b934ca495991b7852b855");
    assert_eq!(sha256_hex_of(&[b"abc"]), "ba7816bf8f01cfea414140de5dae2223b00361a396177a9cb410ff61f20015ad");
    assert_eq!(
        sha256_hex_of(&[b"abcdbcdecdefdefgefghfghighijhijkijkljklmklmnlmnomnopnopq"]),
        "248d6a61d20638b8e5c026930c3e6039a33ce45964ff2167f6ecedd419db06c1"
    );
    let million_a = vec![b'a'; 1_000_000];
    assert_eq!(
        sha256_hex_of(&[&million_a]),
        "cdc76e5c9914fb9281a1c7e284d73e67f1809a48a497200e046d39ccc7112cd0"
    );
}

#[test]
fn sha256_of_pieces_equals_sha256_of_whole() {
    let data: Vec<u8> = (0..300u32).map(|i| (i * 7 % 256) as u8).collect();
    let whole = sha256_hex_of(&[&data]);
    assert_eq!(sha256_hex_of(&[&data[..1], &data[1..64], &data[64..65], &data[65..200], &data[200..]]), whole);
    assert_eq!(sha256_hex_of(&[&data[..150], &[], &data[150..]]), whole);
    let mut h = Sha256::new();
    h.update(&data[..10]);
    assert_eq!(h.fed_len(), 10);
}

#[test]
fn verification_verdicts() {
    let r = verification_verdict(FileEntry::Missing, None, None);
    assert!(!r.is_valid);
    assert_eq!(r.error_msg.as_deref(), Some("Downloaded file does not exist on disk."));
    let r = verification_verdict(FileEntry::Size(0), None, None);
    assert_eq!(r.error_msg.as_deref(), Some("Completed file has an empty 0-byte size."));
    let r = verification_verdict(FileEntry::Size(10), Some(Err("bad".to_string())), None);
    assert_eq!(r.error_msg.as_deref(), Some("ffprobe container check failed: bad"));
    assert_eq!(r.file_size_bytes, 10);
    let r = verification_verdict(FileEntry::Size(10), Some(Ok(42)), Some("ab".to_string()));
    assert!(r.is_valid);
    assert_eq!(r.duration_seconds, Some(42));
    assert_eq!(r.sha256_hash.as_deref(), Some("ab"));
    let r = verification_verdict(FileEntry::MetadataError("denied".to_string()), None, None);
    assert_eq!(r.error_msg.as_deref(), Some("Failed to read file metadata: denied"));
    assert!(needs_content_checks(&FileEntry::Size(3)));
    assert!(!needs_content_checks(&FileEntry::NotAFile));
}

#[test]
fn channels_encoders_and_search_paths() {
    assert_eq!(UpdateChannel::Beta.as_str(), "Beta");
    assert_eq!(UpdateChannel::from_setting(Some("Nightly")), UpdateChannel::Nightly);
    assert_eq!(UpdateChannel::from_setting(Some("other")), UpdateChannel::Stable);
    assert_eq!(UpdateChannel::from_setting(None), UpdateChannel::Stable);
    assert_eq!(
        UpdateChannel::Stable.download_url(HostOs::Windows),
        "https://github.com/yt-dlp/yt-dlp/releases/latest/download/yt-dlp.exe"
    );
    assert_eq!(
        UpdateChannel::Nightly.download_url(HostOs::Unix),
        "https://github.com/yt-dlp/yt-dlp-nightly-builds/releases/latest/download/yt-dlp"
    );
    assert_eq!(select_h264_encoder(" V..... h264_nvenc\n V..... h264_qsv"), "h264_nvenc");
    assert_eq!(select_h264_encoder("libx264 only"), "libx264");
    assert_eq!(search_path_entries(Some("/a:/b"), HostOs::Unix), vec!["/a", "/b"]);
    assert_eq!(search_path_entries(Some("C:\\a;D:\\b"), HostOs::Windows), vec!["C:\\a", "D:\\b"]);
    assert_eq!(standard_search_entries(HostOs::Other).len(), 0);
    assert_eq!(standard_search_entries(HostOs::Unix)[0], "/usr/bin");
}

#[test]
fn binary_resolution_in_an_empty_folder() {
    let dir = std::path::PathBuf::from("/nonexistent/fetchr_no_binaries_here");
    let bm = BinManager::new(dir.clone(), HostOs::Other);
    assert_eq!(bm.get_bin_dir(), &dir);
    assert_eq!(bm.get_yt_dlp_path(), dir.join("yt-dlp"));
    assert!(!bm.yt_dlp_local_exists());
    assert_eq!(bm.resolve_yt_dlp_binary(None, Some("")), Err(BinaryError::YtDlpNotFound));
    assert_eq!(bm.resolve_ffmpeg_binary(None), Err(BinaryError::FfmpegNotFound));
    let engine = YtDlpEngine::new(bm, None);
    assert_eq!(engine.get_executable_path(None), Err(BinaryError::YtDlpNotFound));
}

#[test]
fn metadata_helpers() {
    let f = media_format_from_fields(
        Some("137".to_string()),
        None,
        Some("1920x1080".to_string()),
        None,
        Some(99),
        None,
        None,
        None,
    )
    .unwrap();
    assert_eq!(f.ext, "mp4");
    assert_eq!(f.filesize, Some(99));
    assert!(media_format_from_fields(None, None, None, None, None, None, None, None).is_none());
    let d = direct_media_format("Direct stream format");
    assert_eq!(d.format_id, "best");
    assert_eq!(d.note.as_deref(), Some("Direct stream format"));
    assert_eq!(
        choose_thumbnail(None, vec!["a".to_string(), "b".to_string()]),
        Some("b".to_string())
    );
    assert_eq!(choose_thumbnail(Some("t".to_string()), vec!["a".to_string()]), Some("t".to_string()));
    let args = metadata_command_args("https://vimeo.com/1", Some("firefox"));
    assert_eq!(args[0], "-J");
    assert_eq!(args[args.len() - 3], "https://vimeo.com/1");
    assert_eq!(args[args.len() - 1], "firefox");
    let args = metadata_command_args("https://vimeo.com/1", Some(""));
    assert_eq!(args[args.len() - 1], "https://vimeo.com/1");
}

#[test]
fn metadata_sources() {
    match metadata_source_for(Platform::YouTube, "u") {
        MetadataSource::Oembed { endpoint, extractor, opengraph_fallback } => {
            assert_eq!(endpoint, "https://www.youtube.com/oembed?url=u&format=json");
            assert_eq!(extractor, "youtube");
            assert!(!opengraph_fallback);
        }
        _ => panic!("expected oEmbed"),
    }
    let (normalized, source) = plan_metadata_lookup("instagram.com/p/X/?igsh=1");
    assert_eq!(normalized, "https://www.instagram.com/p/X/");
    match source {
        MetadataSource::Oembed { endpoint, extractor, opengraph_fallback } => {
            assert_eq!(
                endpoint,
                "https://www.instagram.com/oembed/?url=https%3A%2F%2Fwww.instagram.com%2Fp%2FX%2F"
            );
            assert_eq!(extractor, "instagram");
            assert!(opengraph_fallback);
        }
        _ => panic!("expected oEmbed"),
    }
    assert!(matches!(
        metadata_source_for(Platform::Generic, "u"),
        MetadataSource::OpenGraph { extractor: "generic" }
    ));
    let html = r#"<meta property="og:title" content="Hello"><meta property="og:image" content="http://i/x.jpg">"#;
    assert_eq!(opengraph_title(html, "facebook"), "Hello");
    assert_eq!(opengraph_title("<html></html>", "facebook"), "FACEBOOK Media");
    assert_eq!(opengraph_thumbnail(html).as_deref(), Some("http://i/x.jpg"));
}

#[test]
fn title_from_capture_falls_back_to_extractor() {
    assert_eq!(title_from_capture(Some("Clip".to_string()), "vimeo"), "Clip");
    assert_eq!(title_from_capture(None, "tiktok"), "TIKTOK Media");
}

#[test]
fn progress_records_of_json_lines() {
    let r = progress_record(Some("downloading"), Some(5242880), Some(10485760), None, Some(5));
    assert!(!r.finished);
    assert_eq!((r.done, r.expected), (5242880, 10485760));
    assert_eq!(r.eta.as_deref(), Some("00:05"));
    assert_eq!((r.downloaded_bytes, r.total_bytes), (Some(5242880), Some(10485760)));

    let r = progress_record(None, None, None, Some(900), Some(-1));
    assert_eq!((r.done, r.expected), (0, 900));
    assert_eq!(r.total_bytes, Some(900));
    assert_eq!(r.eta.as_deref(), Some("--:--"));

    let r = progress_record(Some("finished"), Some(10), None, Some(20), None);
    assert!(r.finished);
    assert_eq!((r.downloaded_bytes, r.total_bytes), (Some(10), None));
    assert_eq!(r.eta.as_deref(), Some("00:00"));
}

#[test]
fn plain_progress_line_fields() {
    let line = "[download]  23.4% of   10.23MiB at    2.34MiB/s ETA 00:04";
    let f = plain_progress_fields(line).unwrap().unwrap();
    assert_eq!(f.percentage_text, "23.4");
    assert_eq!(f.speed, "2.34MiB/s");
    assert_eq!(f.eta, "00:04");
    assert!(plain_progress_fields("[download] 100% of 12.34MiB in 00:05").is_none());
    assert!(plain_progress_fields("random text").is_none());
}

#[test]
fn plain_fields_from_captured_groups() {
    let g = |v: &[Option<&str>]| Some(v.iter().map(|x| x.map(|s| s.to_string())).collect::<Vec<_>>());
    let f = plain_fields_from_groups(g(&[Some("all"), Some("5"), Some("1MiB"), Some(" 2KiB/s "), Some("01:00 ")]))
        .unwrap()
        .unwrap();
    assert_eq!((f.percentage_text.as_str(), f.speed.as_str(), f.eta.as_str()), ("5", "2KiB/s", "01:00"));
    assert!(plain_fields_from_groups(g(&[Some("all"), Some("5"), None, Some("x"), Some("y")])).unwrap().is_none());
    assert!(plain_fields_from_groups(None).is_none());
}

#[test]
fn binary_resolution_takes_an_existing_custom_path_and_windows_names() {
    let dir = std::path::PathBuf::from("/nonexistent/fetchr_no_binaries_here");
    let bm = BinManager::new(dir.clone(), HostOs::Unix);
    assert_eq!(bm.resolve_yt_dlp_binary(Some("/bin/sh"), None), Ok(std::path::PathBuf::from("/bin/sh")));
    let engine = YtDlpEngine::new(bm, Some("/bin/sh".to_string()));
    assert_eq!(engine.get_executable_path(Some("")), Ok(std::path::PathBuf::from("/bin/sh")));
    let win = BinManager::new(dir.clone(), HostOs::Windows);
    assert_eq!(win.get_yt_dlp_path(), dir.join("yt-dlp.exe"));
}

#[test]
fn the_first_candidate_reported_present_is_taken() {
    let plan = |names: &[(&str, bool)]| -> Vec<Candidate> {
        names.iter().map(|(p, f)| Candidate { path: std::path::PathBuf::from(p), must_be_file: *f }).collect()
    };
    let p = plan(&[("/custom/yt-dlp", true), ("/bins/yt-dlp", false), ("/usr/bin/yt-dlp", true)]);
    assert_eq!(select_found(p, &vec![false, true, true]), Some(std::path::PathBuf::from("/bins/yt-dlp")));
    let p = plan(&[("/custom/yt-dlp", true), ("/bins/yt-dlp", false)]);
    assert_eq!(select_found(p, &vec![true, true]), Some(std::path::PathBuf::from("/custom/yt-dlp")));
    let p = plan(&[("/a", true), ("/b", false)]);
    assert_eq!(select_found(p, &vec![false, false]), None);
}

#[test]
fn search_plans_in_order_of_precedence() {
    let dir = std::path::PathBuf::from("/opt/fetchr/bin");
    let bm = BinManager::new(dir.clone(), HostOs::Unix);
    let plan = bm.yt_dlp_search_plan(Some("/my/yt-dlp"), Some("/x:/y"));
    let got: Vec<(std::path::PathBuf, bool)> = plan.into_iter().map(|c| (c.path, c.must_be_file)).collect();
    assert_eq!(got[0], (std::path::PathBuf::from("/my/yt-dlp"), true));
    assert_eq!(got[1], (dir.join("yt-dlp"), false));
    assert_eq!(got[2], (std::path::PathBuf::from("/x/yt-dlp"), true));
    assert_eq!(got[3], (std::path::PathBuf::from("/y/yt-dlp"), true));
    assert_eq!(got[4], (std::path::PathBuf::from("/usr/bin/yt-dlp"), false));
    assert_eq!(got.len(), 8);
    let win = BinManager::new(dir.clone(), HostOs::Windows);
    let plan = win.tool_search_plan("ffmpeg", Some("C:\\tools"));
    assert_eq!(plan.len(), 2);
    assert_eq!(plan[0].path, dir.join("ffmpeg.exe"));
    assert!(plan[1].must_be_file);
}

#[test]
fn metadata_fields_of_yt_dlp_json() {
    let json = br#"{"title":"Clip","extractor_key":"YouTube","thumbnails":[{"url":"t1"},{"id":3},{"url":"t2"}],
        "formats":[{"format_id":"18","ext":"webm","filesize_approx":77,"format_note":"360p"},{"ext":"mp4"},{"format_id":"22"}]}"#;
    let m = metadata_fields_from_json(json, "https://youtu.be/x").unwrap();
    assert_eq!(m.title, "Clip");
    assert_eq!(m.extractor, "youtube");
    assert_eq!(m.thumbnail_url.as_deref(), Some("t2"));
    assert_eq!(m.webpage_url, "https://youtu.be/x");
    assert_eq!(m.formats.len(), 2);
    assert_eq!((m.formats[0].format_id.as_str(), m.formats[0].ext.as_str(), m.formats[0].filesize), ("18", "webm", Some(77)));
    assert_eq!(m.formats[0].note.as_deref(), Some("360p"));
    assert_eq!((m.formats[1].format_id.as_str(), m.formats[1].ext.as_str()), ("22", "mp4"));

    let m = metadata_fields_from_json(br#"{"thumbnail":"th","webpage_url":"w"}"#, "u").unwrap();
    assert_eq!(m.title, "Untitled Video");
    assert_eq!(m.extractor, "generic");
    assert_eq!(m.thumbnail_url.as_deref(), Some("th"));
    assert_eq!(m.webpage_url, "w");
    assert!(m.formats.is_empty());
    assert!(metadata_fields_from_json(b"not json", "u").is_none());
}

#[test]
fn oembed_fields_of_a_response_body() {
    let body = br#"{"title":"Reel","author_name":"cat","author_url":"https://x/cat","thumbnail_url":"https://x/t.jpg","duration":3.5}"#;
    let m = oembed_fields_from_json(body, "https://www.instagram.com/p/1/", "instagram").unwrap();
    assert_eq!(m.title, "Reel");
    assert_eq!(m.uploader.as_deref(), Some("cat"));
    assert_eq!(m.uploader_url.as_deref(), Some("https://x/cat"));
    assert_eq!(m.thumbnail_url.as_deref(), Some("https://x/t.jpg"));
    assert_eq!(m.webpage_url, "https://www.instagram.com/p/1/");
    assert_eq!(m.extractor, "instagram");
    assert_eq!(m.formats.len(), 1);
    assert_eq!(m.formats[0].format_id, "best");
    assert_eq!(m.formats[0].note.as_deref(), Some("Direct download format"));
    let m = oembed_fields_from_json(b"{}", "u", "vimeo").unwrap();
    assert_eq!(m.title, "Untitled Media");
    assert!(m.description.is_none() && m.uploader.is_none());
    assert!(oembed_fields_from_json(b"<html>", "u", "vimeo").is_none());
}

#[test]
fn a_candidate_is_present_where_the_filesystem_says_so() {
    assert!(candidate_present(true, true, true));
    assert!(!candidate_present(true, false, true));
    assert!(candidate_present(true, false, false));
    assert!(!candidate_present(false, true, false));
}
