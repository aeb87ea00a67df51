//! Application settings as plain values.
//!
//! The settings are kept in a file beside the program. Reading and writing
//! that file is the caller's work; what the settings mean is decided here.

use vstd::prelude::*;
use crate::path_resolver::PathTranslation;

verus! {

/// The number of images kept unless the user says otherwise.
pub const DEFAULT_MAX_IMAGES: usize = 20;

/// The side of a thumbnail in pixels unless the user says otherwise.
pub const DEFAULT_THUMBNAIL_SIZE: u32 = 100;

/// Colour scheme of the user interface.
#[derive(Debug, Clone, Copy, PartialEq, Eq, Structural)]
pub enum Theme {
    System,
    Light,
    Dark,
}

impl Theme {
    /// Whether this scheme is drawn with dark colours. `System` is drawn dark.
    pub fn is_dark(&self) -> (dark: bool)
        ensures
            dark == !(*self is Light),
    {
        match self {
            Theme::Light => false,
            Theme::Dark => true,
            Theme::System => true,
        }
    }
}

/// The host platform, found out once at start-up.
#[derive(Debug, Clone, Copy, PartialEq, Eq, Structural)]
pub enum Platform {
    Windows,
    MacOs,
    Other,
}

/// The user's settings.
#[derive(Debug, Clone, PartialEq, Eq)]
pub struct Config {
    /// The directory of the image store.
    pub save_directory: String,
    /// The number of images the store keeps.
    pub max_images: usize,
    pub theme: Theme,
    /// The side of a thumbnail in pixels.
    pub thumbnail_size: u32,
    /// Whether saved paths are handed out in the POSIX subsystem's form. It
    /// has an effect on Windows only.
    pub wsl_mode: bool,
    /// Whether the hint on the paste shortcut is still to be shown. It has an
    /// effect on macOS only.
    pub show_macos_tip: bool,
}

/// A `Config` as contracts speak of it.
pub struct ConfigView {
    pub save_directory: Seq<char>,
    pub max_images: nat,
    pub theme: Theme,
    pub thumbnail_size: nat,
    pub wsl_mode: bool,
    pub show_macos_tip: bool,
}

impl View for Config {
    type V = ConfigView;

    open spec fn view(&self) -> ConfigView {
        ConfigView {
            save_directory: self.save_directory@,
            max_images: self.max_images as nat,
            theme: self.theme,
            thumbnail_size: self.thumbnail_size as nat,
            wsl_mode: self.wsl_mode,
            show_macos_tip: self.show_macos_tip,
        }
    }
}

/// The settings of a first start with the store in `save_directory`.
pub open spec fn default_settings(save_directory: Seq<char>) -> ConfigView {
    ConfigView {
        save_directory,
        max_images: DEFAULT_MAX_IMAGES as nat,
        theme: Theme::Dark,
        thumbnail_size: DEFAULT_THUMBNAIL_SIZE as nat,
        wsl_mode: false,
        show_macos_tip: true,
    }
}

/// How saved paths are rewritten under `config` on `platform`: for the POSIX
/// subsystem where the platform is Windows and the user asked for it, and
/// not at all anywhere else.
pub open spec fn translation_for(config: ConfigView, platform: Platform) -> PathTranslation {
    if platform is Windows && config.wsl_mode {
        PathTranslation::SubsystemMount
    } else {
        PathTranslation::Identity
    }
}

impl Config {
    /// The settings of a first start: twenty images, thumbnails of a hundred
    /// pixels, the dark scheme, paths as the host writes them, the hint still
    /// to be shown.
    pub fn with_defaults(save_directory: String) -> (config: Config)
        ensures
            config@ == default_settings(save_directory@),
    {
        Config {
            save_directory,
            max_images: DEFAULT_MAX_IMAGES,
            theme: Theme::Dark,
            thumbnail_size: DEFAULT_THUMBNAIL_SIZE,
            wsl_mode: false,
            show_macos_tip: true,
        }
    }

    /// The settings to start with: those read from the settings file, or,
    /// where none could be read, the defaults with the store in
    /// `default_directory`.
    pub fn load(stored: Option<Config>, default_directory: String) -> (config: Config)
        ensures
            config@ == match stored {
                Some(read) => read@,
                None => default_settings(default_directory@),
            },
    {
        match stored {
            Some(read) => read,
            None => Config::with_defaults(default_directory),
        }
    }

    /// How saved paths are to be rewritten on `platform`.
    pub fn path_translation(&self, platform: Platform) -> (mode: PathTranslation)
        ensures
            mode == translation_for(self@, platform),
            !(platform is Windows) ==> mode is Identity,
    {
        match platform {
            Platform::Windows => if self.wsl_mode {
                PathTranslation::SubsystemMount
            } else {
                PathTranslation::Identity
            },
            _ => PathTranslation::Identity,
        }
    }

    /// Whether the hint on the paste shortcut is to be shown on `platform`.
    pub fn shows_tip(&self, platform: Platform) -> (shown: bool)
        ensures
            shown == (platform is MacOs && self.show_macos_tip),
    {
        match platform {
            Platform::MacOs => self.show_macos_tip,
            _ => false,
        }
    }
}

} // verus!
