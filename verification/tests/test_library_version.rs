use fetchr_core::get_core_version;

#[test]
fn core_version_is_the_manifest_version() {
    assert_eq!(get_core_version(), "0.1.0");
}
