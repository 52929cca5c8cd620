use aerugo_render::instance::missing_entries;
use aerugo_render::instance::InstanceBuilder;
use aerugo_render::version::Version;

#[test]
fn builder_collects_what_was_requested() {
    let b = InstanceBuilder::new()
        .api_version(Version::version_1_2())
        .extension("VK_KHR_surface".to_owned())
        .extension("VK_KHR_wayland_surface".to_owned())
        .layer("VK_LAYER_KHRONOS_validation".to_owned())
        .app_name("compositor".to_owned())
        .app_version(Version { variant: 0, major: 0, minor: 3, patch: 1 });
    assert_eq!(b.requested_api_version(), Version::version_1_2());
    assert_eq!(
        b.requested_extensions().as_slice(),
        ["VK_KHR_surface".to_owned(), "VK_KHR_wayland_surface".to_owned()]
    );
    assert_eq!(b.requested_layers().as_slice(), ["VK_LAYER_KHRONOS_validation".to_owned()]);
    assert_eq!(b.requested_app_name().as_deref(), Some("compositor"));
    assert_eq!(
        b.requested_app_version(),
        Some(Version { variant: 0, major: 0, minor: 3, patch: 1 })
    );
}

#[test]
fn missing_entries_keeps_request_order() {
    let requested = vec![
        "VK_KHR_surface".to_owned(),
        "VK_EXT_debug_utils".to_owned(),
        "VK_KHR_display".to_owned(),
    ];
    let supported = vec!["VK_EXT_debug_utils".to_owned(), "VK_KHR_swapchain".to_owned()];
    let missing = missing_entries(&requested, &supported);
    assert_eq!(
        missing.as_slice(),
        ["VK_KHR_surface".to_owned(), "VK_KHR_display".to_owned()]
    );
}

#[test]
fn nothing_is_missing_when_everything_is_supported() {
    let requested = vec!["VK_KHR_surface".to_owned()];
    let supported = vec!["VK_KHR_surface".to_owned(), "VK_KHR_display".to_owned()];
    assert!(missing_entries(&requested, &supported).is_empty());
    let none: Vec<String> = Vec::new();
    assert!(missing_entries(&none, &supported).is_empty());
}
