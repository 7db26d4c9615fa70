use fetchr_core::sanitizer::sanitize_filename;

#[test]
fn test_sanitize_filename_emojis_and_symbols() {
    let raw = "🔥 CRAZY VIDEO! (2026) #trending @user & more %100";
    let sanitized = sanitize_filename(raw);
    assert_eq!(sanitized, "CRAZY VIDEO_ (2026) numtrending atuser and more pct100");
}

#[test]
fn test_sanitize_filename_windows_reserved() {
    assert_eq!(sanitize_filename("CON"), "fetchr_CON");
    assert_eq!(sanitize_filename("aux.txt"), "fetchr_aux.txt");
    assert_eq!(sanitize_filename("PRN"), "fetchr_PRN");
    assert_eq!(sanitize_filename("NUL"), "fetchr_NUL");
    assert_eq!(sanitize_filename("COM1"), "fetchr_COM1");
    assert_eq!(sanitize_filename("LPT1"), "fetchr_LPT1");
}

#[test]
fn test_sanitize_filename_length_truncation() {
    let long_name = "a".repeat(300);
    let sanitized = sanitize_filename(&long_name);
    assert!(sanitized.len() <= 200);
}
