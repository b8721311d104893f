//! Application settings, their defaults and their validation.

use vstd::prelude::*;
use crate::local_mods::EXTENDED_PREFIX;
use crate::text::{chars_of, concat_chars, ends_with, starts_with, string_of, trim, trim_chars, trim_str};

verus! {

/// User settings of the application.
#[derive(Clone, Debug)]
pub struct AppSettings {
    pub steamcmd_path: String,
    pub mod_download_path: String,
    pub steam_username: String,
    pub use_anonymous_login: bool,
    pub auto_clear_queue: bool,
    pub window_width: u32,
    pub window_height: u32,
}

/// Default window width.
pub fn default_window_width() -> (res: u32)
    ensures
        res == 1280,
{
    1280
}

/// Default window height.
pub fn default_window_height() -> (res: u32)
    ensures
        res == 820,
{
    820
}

/// Default of the boolean settings.
pub fn default_true() -> (res: bool)
    ensures
        res,
{
    true
}

impl Default for AppSettings {
    /// No paths or user name, anonymous login, queue cleared after a
    /// download, a 1280 by 820 window.
    fn default() -> (res: Self)
        ensures
            res.steamcmd_path@.len() == 0,
            res.mod_download_path@.len() == 0,
            res.steam_username@.len() == 0,
            res.use_anonymous_login,
            res.auto_clear_queue,
            res.window_width == 1280,
            res.window_height == 820,
    {
        AppSettings {
            steamcmd_path: String::new(),
            mod_download_path: String::new(),
            steam_username: String::new(),
            use_anonymous_login: default_true(),
            auto_clear_queue: default_true(),
            window_width: default_window_width(),
            window_height: default_window_height(),
        }
    }
}

/// Outcome of checking the settings' paths.
#[derive(Clone, Debug)]
pub struct ValidationResult {
    pub valid: bool,
    pub message: String,
}

/// Outcome of a command, with a message for the user.
#[derive(Debug)]
pub struct CommandResult {
    pub success: bool,
    pub message: String,
}

/// The verdict on the settings, given whether the SteamCMD executable they
/// point to was found (as a file) at `location`.
pub open spec fn validation_spec(settings: AppSettings, steamcmd_found: bool, location: Seq<char>) -> (bool, Seq<char>) {
    if trim(settings.steamcmd_path@).len() == 0 {
        (false, "SteamCMD executable path is required."@)
    } else if !steamcmd_found {
        (false, "SteamCMD was not found at: "@ + location)
    } else if trim(settings.mod_download_path@).len() == 0 {
        (false, "Mod download path is required."@)
    } else {
        (true, "Paths are valid."@)
    }
}

/// Checks the settings' paths: a SteamCMD path must be given and lead to
/// the executable (`steamcmd_found`, looked up at `steamcmd_location`), and a
/// mod download path must be given.
pub fn validate_settings_paths(settings: &AppSettings, steamcmd_found: bool, steamcmd_location: &str) -> (res: ValidationResult)
    ensures
        (res.valid, res.message@) == validation_spec(*settings, steamcmd_found, steamcmd_location@),
{
    let steamcmd = trim_chars(&chars_of(settings.steamcmd_path.as_str()));
    if steamcmd.len() == 0 {
        return ValidationResult {
            valid: false,
            message: "SteamCMD executable path is required.".to_owned(),
        };
    }
    if !steamcmd_found {
        let prefix = chars_of("SteamCMD was not found at: ");
        let all = concat_chars(&prefix, &chars_of(steamcmd_location));
        return ValidationResult { valid: false, message: string_of(&all) };
    }
    let mod_path = trim_chars(&chars_of(settings.mod_download_path.as_str()));
    if mod_path.len() == 0 {
        return ValidationResult { valid: false, message: "Mod download path is required.".to_owned() };
    }
    ValidationResult { valid: true, message: "Paths are valid.".to_owned() }
}

/// A file name that a path join appends as one plain component: not empty,
/// not `.` or `..`, and without separators or a drive colon.
pub open spec fn plain_file_name(name: Seq<char>) -> bool {
    &&& name.len() > 0
    &&& name != "."@
    &&& name != ".."@
    &&& forall|i: int| 0 <= i < name.len() ==> #[trigger] name[i] != '/' && name[i] != '\\' && name[i] != ':'
}

/// `std::path::Path::join` of `name` onto `base`, as text. Claimed: `join`
/// appends `name` as a new last component (`PathBuf::push`: "extends self
/// with path"), so the result ends with `name`; it keeps `base` in front,
/// unless `base` is a verbatim Windows path (`\\?\...`), which `push`
/// normalizes; and it adds at most one separator. Which separator is added,
/// if any, depends on the platform and is left unsaid.
#[verifier::external_body]
fn path_join(base: &str, name: &str) -> (res: String)
    requires
        plain_file_name(name@),
    ensures
        ends_with(res@, name@),
        !starts_with(base@, EXTENDED_PREFIX@) ==> starts_with(res@, base@),
        res@.len() <= base@.len() + 1 + name@.len(),
{
    std::path::Path::new(base).join(name).to_string_lossy().into_owned()
}

/// File name of the SteamCMD executable looked for in a folder.
pub const STEAMCMD_EXECUTABLE: &'static str = "steamcmd.exe";

/// Where the SteamCMD executable is looked for, given whether the trimmed
/// setting names a folder (`is_dir`): the trimmed setting itself, or, for a
/// folder, `steamcmd.exe` joined onto it by the platform's path rules: the
/// folder (unless a verbatim Windows path, which the join normalizes), at
/// most one separator, then `steamcmd.exe`.
pub fn steamcmd_executable_path(path: &str, is_dir: bool) -> (res: String)
    ensures
        !is_dir ==> res@ == trim(path@),
        is_dir ==> ends_with(res@, STEAMCMD_EXECUTABLE@),
        is_dir && !starts_with(trim(path@), EXTENDED_PREFIX@) ==> starts_with(res@, trim(path@)),
        is_dir ==> res@.len() <= trim(path@).len() + 1 + STEAMCMD_EXECUTABLE@.len(),
{
    let base = trim_str(path);
    if is_dir {
        proof {
            reveal_strlit("steamcmd.exe");
            reveal_strlit(".");
            reveal_strlit("..");
            assert(STEAMCMD_EXECUTABLE@ != "."@) by {
                assert(STEAMCMD_EXECUTABLE@.len() != "."@.len());
            }
            assert(STEAMCMD_EXECUTABLE@ != ".."@) by {
                assert(STEAMCMD_EXECUTABLE@.len() != ".."@.len());
            }
        }
        path_join(base.as_str(), STEAMCMD_EXECUTABLE)
    } else {
        base
    }
}

} // verus!
