//! The theme settings the shell reads from its configuration file.

use vstd::prelude::*;

verus! {

/// Colour and font choices for the shell; every field is optional.
pub struct ThemeConfig {
    pub background_color: Option<String>,
    pub text_color: Option<String>,
    pub cursor_color: Option<String>,
    pub selection_bg: Option<String>,
    pub statusbar_bg: Option<String>,
    pub minibuffer_bg: Option<String>,
    pub background_image: Option<String>,
    pub font_family: Option<String>,
}

impl Default for ThemeConfig {
    /// A theme with nothing set.
    fn default() -> (r: ThemeConfig)
        ensures
            r.background_color is None && r.text_color is None && r.cursor_color is None
                && r.selection_bg is None && r.statusbar_bg is None && r.minibuffer_bg is None
                && r.background_image is None && r.font_family is None,
    {
        ThemeConfig {
            background_color: None,
            text_color: None,
            cursor_color: None,
            selection_bg: None,
            statusbar_bg: None,
            minibuffer_bg: None,
            background_image: None,
            font_family: None,
        }
    }
}

/// The loaded configuration: the theme and, when one was read, the
/// path it came from.
pub struct AppConfigResponse {
    pub theme: ThemeConfig,
    pub source_path: Option<String>,
}

impl Default for AppConfigResponse {
    /// The configuration used when no file exists.
    fn default() -> (r: AppConfigResponse)
        ensures
            r.source_path is None,
            r.theme.background_color is None && r.theme.text_color is None
                && r.theme.cursor_color is None && r.theme.selection_bg is None
                && r.theme.statusbar_bg is None && r.theme.minibuffer_bg is None
                && r.theme.background_image is None && r.theme.font_family is None,
    {
        AppConfigResponse { theme: ThemeConfig::default(), source_path: None }
    }
}

} // verus!
