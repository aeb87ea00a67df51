use image_pathifier::config::{Config, Platform, Theme, DEFAULT_MAX_IMAGES, DEFAULT_THUMBNAIL_SIZE};
use image_pathifier::path_resolver::PathTranslation;

#[test]
fn defaults_of_a_first_start() {
    let config = Config::with_defaults(String::from("/opt/app/saved_images"));
    assert_eq!(config.save_directory, "/opt/app/saved_images");
    assert_eq!(config.max_images, 20);
    assert_eq!(config.max_images, DEFAULT_MAX_IMAGES);
    assert_eq!(config.theme, Theme::Dark);
    assert_eq!(config.thumbnail_size, 100);
    assert_eq!(config.thumbnail_size, DEFAULT_THUMBNAIL_SIZE);
    assert!(!config.wsl_mode);
    assert!(config.show_macos_tip);
}

#[test]
fn stored_settings_win_over_defaults() {
    let stored = Config {
        save_directory: String::from("D:\\shots"),
        max_images: 5,
        theme: Theme::Light,
        thumbnail_size: 64,
        wsl_mode: true,
        show_macos_tip: false,
    };
    assert_eq!(Config::load(Some(stored.clone()), String::from("fallback")), stored);
}

#[test]
fn missing_settings_give_the_defaults() {
    assert_eq!(
        Config::load(None, String::from("fallback")),
        Config::with_defaults(String::from("fallback"))
    );
}

#[test]
fn translation_needs_windows_and_the_setting() {
    let mut config = Config::with_defaults(String::from("x"));
    for platform in [Platform::Windows, Platform::MacOs, Platform::Other] {
        assert_eq!(config.path_translation(platform), PathTranslation::Identity);
    }
    config.wsl_mode = true;
    assert_eq!(config.path_translation(Platform::Windows), PathTranslation::SubsystemMount);
    assert_eq!(config.path_translation(Platform::MacOs), PathTranslation::Identity);
    assert_eq!(config.path_translation(Platform::Other), PathTranslation::Identity);
}

#[test]
fn tip_is_shown_on_macos_only() {
    let mut config = Config::with_defaults(String::from("x"));
    assert!(config.shows_tip(Platform::MacOs));
    assert!(!config.shows_tip(Platform::Windows));
    assert!(!config.shows_tip(Platform::Other));
    config.show_macos_tip = false;
    assert!(!config.shows_tip(Platform::MacOs));
}

#[test]
fn only_the_light_theme_is_light() {
    assert!(!Theme::Light.is_dark());
    assert!(Theme::Dark.is_dark());
    assert!(Theme::System.is_dark());
}
