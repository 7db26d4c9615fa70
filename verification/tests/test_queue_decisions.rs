use fetchr_core::db::TaskStatus::{Completed, Downloading, Failed, Interrupted, Paused, Pending};
use fetchr_core::db::{TaskStatus, TaskType};
use fetchr_core::queue::{
    checked_failure_summary, custom_flag_args, direct_download_names, failure_summary,
    format_selection_args, get_height_limit, get_output_extension, is_queue_idle,
    parse_dynamic_preset, select_tasks_to_start, task_needs_encoder,
};

fn video(p: &str) -> TaskType {
    TaskType::DownloadVideo { format_preset: p.to_string() }
}

#[test]
fn scheduler_starts_first_pending_tasks_within_free_slots() {
    let q = vec![Completed, Pending, Downloading, Pending, Failed, Pending];
    assert_eq!(select_tasks_to_start(&q, 0, 2), vec![1, 3]);
    assert_eq!(select_tasks_to_start(&q, 1, 2), vec![1]);
    assert_eq!(select_tasks_to_start(&q, 2, 2), Vec::<usize>::new());
    assert_eq!(select_tasks_to_start(&q, 3, 2), Vec::<usize>::new());
    assert_eq!(select_tasks_to_start(&q, 0, 10), vec![1, 3, 5]);
    assert!(!is_queue_idle(&q));
    assert!(is_queue_idle(&vec![Completed, Pending]));
}

#[test]
fn output_extensions() {
    assert_eq!(get_output_extension(&video("dynamic:1080p:mkv")), "mkv");
    assert_eq!(get_output_extension(&video("dynamic:broken")), "mp4");
    assert_eq!(get_output_extension(&video("editing")), "mkv");
    assert_eq!(get_output_extension(&video("audio")), "mp4");
    assert_eq!(get_output_extension(&video("nope")), "mp4");
    assert_eq!(
        get_output_extension(&TaskType::DownloadAudio { audio_format: "m4a".to_string() }),
        "m4a"
    );
    assert_eq!(get_output_extension(&TaskType::FetchMetadataOnly), "mp4");
}

#[test]
fn dynamic_presets_and_height_limits() {
    assert_eq!(
        parse_dynamic_preset("dynamic:720p:mp4"),
        Some(("720p".to_string(), "mp4".to_string()))
    );
    assert_eq!(parse_dynamic_preset("dynamic:720p:mp4:x"), None);
    assert_eq!(parse_dynamic_preset("static:720p:mp4"), None);
    assert_eq!(get_height_limit("1080p"), Some("1080".to_string()));
    assert_eq!(get_height_limit("p"), Some("".to_string()));
    assert_eq!(get_height_limit("best"), None);
    assert_eq!(get_height_limit("10a0p"), None);
}

#[test]
fn format_selection_for_each_task_kind() {
    let t = video("dynamic:1080p:mp4");
    assert!(task_needs_encoder(&t));
    assert_eq!(
        format_selection_args(&t, "h264_nvenc"),
        vec![
            "-f",
            "bestvideo[height<=1080]+bestaudio/best[height<=1080]",
            "-S",
            "res",
            "--merge-output-format",
            "mp4",
            "--postprocessor-args",
            "ffmpeg:-c:v h264_nvenc -c:a aac -pix_fmt yuv420p",
        ]
    );
    let t = video("dynamic:best:mkv");
    assert!(!task_needs_encoder(&t));
    assert_eq!(
        format_selection_args(&t, ""),
        vec!["-f", "bestvideo*+bestaudio/best", "-S", "res", "--merge-output-format", "mkv"]
    );
    assert_eq!(
        format_selection_args(&video("archive"), ""),
        vec!["-f", "bestvideo+bestaudio/best", "--merge-output-format", "mp4"]
    );
    assert_eq!(format_selection_args(&video("audio"), ""), vec!["-f", "bestaudio/best"]);
    assert_eq!(format_selection_args(&video("zzz"), ""), vec!["-f", "bestvideo+bestaudio/best"]);
    assert_eq!(
        format_selection_args(&TaskType::DownloadAudio { audio_format: "mp3".to_string() }, ""),
        vec!["-x", "--audio-format", "mp3", "--audio-quality", "0"]
    );
    assert_eq!(format_selection_args(&TaskType::ExtractThumbnail, ""), vec!["-f", "best"]);
}

#[test]
fn custom_flags_are_split_on_white_space() {
    assert_eq!(custom_flag_args(Some("  --limit-rate 1M\t-N 4 ")), vec!["--limit-rate", "1M", "-N", "4"]);
    assert_eq!(custom_flag_args(Some("   ")), Vec::<String>::new());
    assert_eq!(custom_flag_args(None), Vec::<String>::new());
}

#[test]
fn failure_messages() {
    assert_eq!(failure_summary(""), "yt-dlp exited with non-zero status code.");
    assert_eq!(failure_summary("  ERROR: boom\n"), "ERROR: boom");
    let long = format!("{}{}", "x".repeat(100), "y".repeat(300));
    assert_eq!(failure_summary(&long), format!("...{}", "y".repeat(300)));
    assert!(failure_summary(&"z".repeat(5000)).len() <= 303);
    let split = format!("{}{}", "é", "y".repeat(299));
    assert_eq!(checked_failure_summary(&split), None);
}

#[test]
fn direct_download_file_names() {
    assert_eq!(
        direct_download_names("https://cdn.example.com/media/clip.webm?sig=1"),
        ("clip.webm".to_string(), "webm".to_string())
    );
    assert_eq!(
        direct_download_names("https://example.com/stream"),
        ("stream".to_string(), "mp4".to_string())
    );
    assert_eq!(direct_download_names("https://example.com/"), ("".to_string(), "mp4".to_string()));
    assert_eq!(
        direct_download_names("https://e.com/a.tar.gz"),
        ("a.tar.gz".to_string(), "gz".to_string())
    );
}

#[test]
fn task_status_names_round_trip() {
    for s in [Pending, Downloading, Paused, Completed, Failed, Interrupted] {
        assert_eq!(TaskStatus::from(s.as_str()), s);
    }
    assert_eq!(TaskStatus::from("garbage"), Pending);
    assert_eq!(fetchr_core::db::history_search_pattern(Some("  reel ")), Some("%reel%".to_string()));
    assert_eq!(fetchr_core::db::history_search_pattern(Some("   ")), None);
    assert_eq!(fetchr_core::db::history_search_pattern(None), None);
}
