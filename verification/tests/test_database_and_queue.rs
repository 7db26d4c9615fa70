use fetchr_core::presets::{get_default_presets, get_preset_by_id};

#[test]
fn test_default_presets_validity() {
    let presets = get_default_presets();
    assert!(!presets.is_empty());
    for p in presets {
        assert!(!p.id.is_empty());
        assert!(!p.name.is_empty());
        assert!(!p.format_filter.is_empty());
    }
}

#[test]
fn presets_are_found_by_id() {
    for p in get_default_presets() {
        let found = get_preset_by_id(&p.id).unwrap();
        assert_eq!(found.id, p.id);
        assert_eq!(found.format_filter, p.format_filter);
    }
    assert!(get_preset_by_id("unknown").is_none());
    let audio = get_preset_by_id("audio").unwrap();
    assert!(audio.extract_audio);
    assert_eq!(audio.audio_format.as_deref(), Some("mp3"));
    assert_eq!(audio.merge_format, None);
    assert_eq!(get_preset_by_id("editing").unwrap().merge_format.as_deref(), Some("mkv"));
}
