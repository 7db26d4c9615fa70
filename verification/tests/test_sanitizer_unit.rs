use fetchr_core::sanitizer::{
    checked_sanitize_filename, collision_fallback_name, is_path_safe, numbered_copy_name,
    path_safety_from_reports, path_safety_verdict, plan_collision_names, resolve_path_collision,
    sanitize_filename, collision_step, CollisionStep,
};
use fetchr_core::paths::parent_or_self;
use std::path::{Path, PathBuf};

#[test]
fn test_sanitization() {
    assert_eq!(sanitize_filename("🔥 THIS VIDEO CHANGED MY LIFE?!?!?!"), "THIS VIDEO CHANGED MY LIFE");
    assert_eq!(sanitize_filename("CON"), "fetchr_CON");
    assert_eq!(sanitize_filename("com1.mp4"), "fetchr_com1.mp4");
    assert_eq!(sanitize_filename("   leading and trailing dots...   "), "leading and trailing dots");
    assert_eq!(sanitize_filename("emoji 🎥 test 🚀"), "emoji _ test");
}

#[test]
fn sanitize_empty_and_symbol_only_names() {
    assert_eq!(sanitize_filename(""), "download");
    assert_eq!(sanitize_filename("🔥🔥🔥"), "media");
    assert_eq!(sanitize_filename("a+b"), "a_b");
    assert_eq!(sanitize_filename("x/y:z"), "x_y_z");
}

#[test]
fn sanitize_result_is_at_most_two_hundred_bytes_and_safe() {
    let long = "é".repeat(150);
    let s = sanitize_filename(&long);
    assert!(s.len() <= 200);
    for name in ["a\\b", "what?", "<tag>", "pipe|name", "quote\"d", "star*"] {
        let s = sanitize_filename(name);
        for c in ['\\', '/', ':', '*', '?', '"', '<', '>', '|'] {
            assert!(!s.contains(c), "{} kept {}", s, c);
        }
    }
}

#[test]
fn sanitize_cut_splitting_a_character_is_refused() {
    // A three-byte character starting at byte 199 cannot be cut at byte 200.
    let name = format!("{}{}", "a".repeat(199), "中".repeat(10));
    assert_eq!(checked_sanitize_filename(&name), None);
    let ok = format!("{}{}", "a".repeat(197), "中".repeat(10));
    let s = checked_sanitize_filename(&ok).unwrap();
    assert_eq!(s.len(), 200);
}

#[test]
fn collision_names_for_short_and_long_bases() {
    let plan = plan_collision_names("my_video", ".mp4", 20);
    assert_eq!(plan.first, "my_video.mp4");
    assert_eq!(plan.stem, "my_video");
    assert_eq!(plan.ext, "mp4");
    assert_eq!(numbered_copy_name(&plan.stem, &plan.ext, 1), "my_video (1).mp4");
    assert_eq!(numbered_copy_name(&plan.stem, &plan.ext, 12), "my_video (12).mp4");

    let long = "b".repeat(100);
    let plan = plan_collision_names(&long, "mkv", 240);
    assert_eq!(plan.first, format!("{}.mkv", "b".repeat(50)));
    assert_eq!(plan.stem, "b".repeat(50));

    let plan = plan_collision_names(&long, "", 240);
    assert_eq!(plan.first, "b".repeat(50));
    assert_eq!(plan.stem, "b".repeat(50));
    assert_eq!(numbered_copy_name(&plan.stem, &plan.ext, 3), format!("{} (3)", "b".repeat(50)));
    let plan = plan_collision_names(&long, "..webm", 200);
    assert_eq!(plan.first, format!("{}.webm", "b".repeat(35)));
    assert_eq!(collision_fallback_name("clip", "abc", "mp4"), "clip_collision_abc.mp4");
}

#[test]
fn path_safety_verdicts() {
    assert!(!path_safety_verdict(false, Some(true), &vec![]));
    assert!(path_safety_verdict(true, Some(true), &vec![]));
    assert!(!path_safety_verdict(true, Some(false), &vec![]));
    assert!(path_safety_verdict(true, None, &vec![false, false]));
    assert!(!path_safety_verdict(true, None, &vec![false, true, false]));
}

#[test]
fn sanitize_applies_compatibility_normalization() {
    assert_eq!(sanitize_filename("ﬁle"), "file");
    assert_eq!(sanitize_filename("Ｖｉｄｅｏ"), "Video");
    assert_eq!(sanitize_filename("café"), "cafe");
}

#[test]
fn collision_target_in_a_missing_folder_is_the_plain_name() {
    let dir = PathBuf::from("/nonexistent_fetchr_folder/collision_test");
    assert_eq!(resolve_path_collision(&dir, "my_video", "mp4"), Some(dir.join("my_video.mp4")));
    assert_eq!(resolve_path_collision(&dir, "clip", ".webm"), Some(dir.join("clip.webm")));
    assert_eq!(resolve_path_collision(&dir, "CON", ""), Some(dir.join("fetchr_CON")));
}

#[test]
fn path_safety_inside_base_and_traversal() {
    let base = Path::new("/tmp");
    let inside = base.join("fetchr_safe_base_missing").join("subdir").join("file.mp4");
    assert!(is_path_safe(base, &inside));
    let outside = base.join("..").join("secret.txt");
    assert!(!is_path_safe(base, &outside));
    let missing_base = Path::new("/nonexistent_fetchr_folder");
    assert!(!is_path_safe(missing_base, &missing_base.join("a.mp4")));
}

#[test]
fn cut_that_leaves_only_separators_gives_an_empty_name() {
    let name = format!("{}x", "_".repeat(250));
    assert_eq!(sanitize_filename(&name), "");
    assert_eq!(sanitize_filename(&"_".repeat(150)), "media");
}

#[test]
fn a_name_the_cut_leaves_reserved_is_prefixed_again() {
    let name = format!("CON{}x", " ".repeat(200));
    assert_eq!(sanitize_filename(&name), "fetchr_CON");
    let name = format!("aux.{}", "b".repeat(250));
    let s = sanitize_filename(&name);
    assert!(s.starts_with("fetchr_aux.bbb"));
    assert_eq!(s.len(), 200);
}

#[test]
fn collision_names_are_cut_to_the_folder_limit() {
    let dir = PathBuf::from(format!("/nonexistent_fetchr_folder/{}", "d".repeat(200)));
    let base = "v".repeat(100);
    let r = resolve_path_collision(&dir, &base, "mp4").unwrap();
    let name = r.file_name().unwrap().to_string_lossy().to_string();
    let limit = 250 - dir.to_string_lossy().len() - 15;
    assert_eq!(name, format!("{}.mp4", "v".repeat(limit)));
}

#[test]
fn safety_from_what_the_filesystem_reports() {
    let base = PathBuf::from("/srv/media");
    let target = Path::new("/srv/media/a/clip.mp4");
    assert!(!path_safety_from_reports(None, None, target));
    assert!(path_safety_from_reports(Some(base.clone()), Some(PathBuf::from("/srv/media/a")), target));
    assert!(!path_safety_from_reports(Some(base.clone()), Some(PathBuf::from("/srv")), target));
    assert!(path_safety_from_reports(Some(base.clone()), None, target));
    assert!(!path_safety_from_reports(Some(base), None, Path::new("/srv/media/../etc/x")));
    assert_eq!(parent_or_self(target), Path::new("/srv/media/a"));
    assert_eq!(parent_or_self(Path::new("/")), Path::new("/"));
}

#[test]
fn the_search_for_a_free_name_takes_the_first_free_candidate() {
    // The first name is taken, copies (1) and (2) too, (3) is free.
    let taken = [true, true, true, false];
    let mut counter = 0u64;
    let picked = loop {
        match collision_step(counter, taken[counter as usize]) {
            CollisionStep::Take => break counter,
            CollisionStep::Next => counter += 1,
            CollisionStep::Fallback => unreachable!(),
        }
    };
    assert_eq!(picked, 3);
    assert_eq!(collision_step(0, false), CollisionStep::Take);
    assert_eq!(collision_step(9998, true), CollisionStep::Next);
    assert_eq!(collision_step(9999, true), CollisionStep::Fallback);
    assert_eq!(numbered_copy_name("cool_clip", "mp4", 1), "cool_clip (1).mp4");
    assert_eq!(numbered_copy_name("cool_clip", "mp4", 2), "cool_clip (2).mp4");
}
