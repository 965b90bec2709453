//! Settings of the picker: the command template and the wallpaper folder.
//!
//! The configuration document is YAML text with the two optional string
//! keys `command` and `wallpapers_folder_path`; each falls back to its
//! default independently. Reading the file itself is the caller's work:
//! the loader here takes the document text.

use vstd::prelude::*;

verus! {

/// The built-in command template: `swww img ${FILE_PATH}`.
pub open spec fn default_command() -> Seq<char> {
    "swww img ${FILE_PATH}"@
}

/// The built-in wallpaper folder under the given home directory:
/// `<home>/Pictures/`.
pub open spec fn default_folder_in(home: Seq<char>) -> Seq<char> {
    home + "/Pictures/"@
}

/// What reading the two settings keys out of a configuration document
/// yields: `None` where the document does not parse; otherwise the string
/// values of the keys `command` and `wallpapers_folder_path`, each `None`
/// where the key is absent or not a string.
pub uninterp spec fn yaml_settings_of(s: Seq<char>) -> Option<(Option<Seq<char>>, Option<
    Seq<char>,
>)>;

/// Relies on `yaml_rust2::YamlLoader::load_from_str` to parse the document,
/// and on `yaml_rust2::Yaml`'s indexing by key and `as_str` to read the
/// string values of the keys `command` and `wallpapers_folder_path`; both
/// yield nothing for an absent key or a non-string value. A text with no
/// document at all is read as one with both keys absent.
#[verifier::external_body]
fn read_settings_keys(contents: &str) -> (r: Result<
    (Option<String>, Option<String>),
    yaml_rust2::ScanError,
>)
    ensures
        match yaml_settings_of(contents@) {
            Some(keys) => (r matches Ok(k) && (k.0.deep_view(), k.1.deep_view()) == keys),
            None => r is Err,
        },
{
    let docs = yaml_rust2::YamlLoader::load_from_str(contents)?;
    match docs.into_iter().next() {
        None => Ok((None, None)),
        Some(doc) => Ok(
            (
                doc["command"].as_str().map(str::to_owned),
                doc["wallpapers_folder_path"].as_str().map(str::to_owned),
            ),
        ),
    }
}

/// The error of the yaml scanner, carried through the trusted reader.
#[verifier::external_type_specification]
#[verifier::external_body]
pub struct ExScanError(yaml_rust2::ScanError);

/// A failure to load settings.
#[derive(Debug)]
pub enum SettingsError {
    /// The configuration file could not be read; raised by callers that do
    /// the reading, never by the loader itself.
    IoError,
    /// The configuration text is not a well-formed document.
    ParseError,
}

/// The user-configurable values, fixed once loaded.
pub struct Settings {
    /// Command template run to change the wallpaper; the image path is
    /// inserted at the placeholder `${FILE_PATH}`.
    pub command: String,
    /// Path of the folder that holds the wallpaper images.
    pub wallpapers_folder_path: String,
}

impl Settings {
    /// Settings built from the two optional key values, each absent one
    /// replaced by its default; the default folder lies under `home`.
    pub fn from_fields(command: Option<String>, folder: Option<String>, home: &str) -> (s: Settings)
        ensures
            s.command@ == (match command {
                Some(c) => c@,
                None => default_command(),
            }),
            s.wallpapers_folder_path@ == (match folder {
                Some(f) => f@,
                None => default_folder_in(home@),
            }),
    {
        let command = match command {
            Some(c) => c,
            None => String::from_str("swww img ${FILE_PATH}"),
        };
        let folder = match folder {
            Some(f) => f,
            None => Self::default_folder_string(home),
        };
        Settings { command, wallpapers_folder_path: folder }
    }

    /// The default wallpaper folder under `home`.
    fn default_folder_string(home: &str) -> (r: String)
        ensures
            r@ == default_folder_in(home@),
    {
        let mut r = String::from_str(home);
        r.append("/Pictures/");
        r
    }

    /// The built-in settings for a user whose home directory is `home`:
    /// the default command template and the default wallpaper folder. Total
    /// and pure: it never fails and touches nothing outside its arguments.
    pub fn default_in(home: &str) -> (s: Settings)
        ensures
            s.command@ == default_command(),
            s.wallpapers_folder_path@ == default_folder_in(home@),
    {
        Settings::from_fields(None, None, home)
    }

    /// Settings loaded from the text of a configuration document, for a
    /// user whose home directory is `home`. A malformed document is a
    /// `ParseError`; in a well-formed one each missing key falls back to
    /// its default independently, the folder default lying under `home`.
    pub fn load(contents: &str, home: &str) -> (r: Result<Settings, SettingsError>)
        ensures
            match yaml_settings_of(contents@) {
                Some(keys) => (r matches Ok(s) && s.command@ == (match keys.0 {
                    Some(c) => c,
                    None => default_command(),
                }) && s.wallpapers_folder_path@ == (match keys.1 {
                    Some(f) => f,
                    None => default_folder_in(home@),
                })),
                None => (r matches Err(e) && e is ParseError),
            },
    {
        match read_settings_keys(contents) {
            Err(_) => Err(SettingsError::ParseError),
            Ok((command, folder)) => Ok(Settings::from_fields(command, folder, home)),
        }
    }
}

} // verus!
