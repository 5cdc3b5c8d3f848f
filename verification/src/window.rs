//! The fixed window configuration the bridge host runs under.

use vstd::prelude::*;

verus! {

/// Width and height of the compact launcher window.
pub const LAUNCHER_WIDTH: u32 = 600;

pub const LAUNCHER_HEIGHT: u32 = 300;

/// Width and height of the full installer window.
pub const INSTALLER_WIDTH: u32 = 1024;

pub const INSTALLER_HEIGHT: u32 = 500;

/// Everything the host needs to create the window: title, content URL,
/// one of the two fixed size presets, and the fixed flags.
pub struct WindowConfig {
    pub title: String,
    pub url: String,
    pub width: u32,
    pub height: u32,
    pub resizable: bool,
    pub debug: bool,
}

/// The window size preset: the compact one for a launcher, the large one
/// for the full installer.
pub fn window_size(is_launcher: bool) -> (r: (u32, u32))
    ensures
        is_launcher ==> r == (LAUNCHER_WIDTH, LAUNCHER_HEIGHT),
        !is_launcher ==> r == (INSTALLER_WIDTH, INSTALLER_HEIGHT),
{
    if is_launcher {
        (LAUNCHER_WIDTH, LAUNCHER_HEIGHT)
    } else {
        (INSTALLER_WIDTH, INSTALLER_HEIGHT)
    }
}

/// The full window configuration: the title is the application name
/// followed by ` Installer`, the URL is taken verbatim, the size follows
/// the preset, and the window is neither resizable nor in debug mode.
pub fn window_config(app_name: &str, http_address: &str, is_launcher: bool) -> (r: WindowConfig)
    ensures
        r.title@ == app_name@ + " Installer"@,
        r.url@ == http_address@,
        is_launcher ==> (r.width, r.height) == (LAUNCHER_WIDTH, LAUNCHER_HEIGHT),
        !is_launcher ==> (r.width, r.height) == (INSTALLER_WIDTH, INSTALLER_HEIGHT),
        !r.resizable,
        !r.debug,
{
    let mut title = String::new();
    title.append(app_name);
    title.append(" Installer");
    let size = window_size(is_launcher);
    WindowConfig {
        title,
        url: http_address.to_owned(),
        width: size.0,
        height: size.1,
        resizable: false,
        debug: false,
    }
}

} // verus!
