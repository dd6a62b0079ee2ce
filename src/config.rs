use vstd::prelude::*;
use vstd::string::StringExecFns;

verus! {

/// The size of the review window, in logical pixels.
#[derive(Debug, Clone, PartialEq)]
pub struct WindowConfig {
    pub width: u32,
    pub height: u32,
}

/// The review tool's settings.
#[derive(Debug, Clone, PartialEq)]
pub struct AppConfig {
    pub theme: String,
    pub vim_mode: bool,
    pub font_size: u32,
    pub markdown_raw: bool,
    pub window: WindowConfig,
}

/// The font size used when the settings name none.
pub fn default_font_size() -> (r: u32)
    ensures
        r == 14,
{
    14
}

impl Default for AppConfig {
    /// Dark theme, no vim keys, 14-point font, rendered markdown, and a
    /// 1200 by 800 window.
    fn default() -> (r: Self)
        ensures
            r.theme@ == "dark"@,
            !r.vim_mode,
            r.font_size == 14,
            !r.markdown_raw,
            r.window == (WindowConfig { width: 1200, height: 800 }),
    {
        AppConfig {
            theme: String::from_str("dark"),
            vim_mode: false,
            font_size: default_font_size(),
            markdown_raw: false,
            window: WindowConfig { width: 1200, height: 800 },
        }
    }
}

} // verus!
