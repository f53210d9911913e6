use vstd::prelude::*;

verus! {

/// `toml::Table` is this map, from keys to `toml::Value`s; it is carried
/// through opaque.
#[verifier::external_type_specification]
#[verifier::external_body]
#[verifier::reject_recursive_types(K)]
#[verifier::reject_recursive_types(V)]
pub struct ExTomlMap<K, V>(toml::map::Map<K, V>);

/// A value of a TOML document, carried through opaque.
#[verifier::external_type_specification]
#[verifier::external_body]
pub struct ExTomlValue(toml::Value);

/// How the current directory is handed to processes on Windows.
#[derive(Clone, Copy, Debug, PartialEq, Eq, Structural)]
pub enum WindowsCwdHandling {
    FullUNC,
    LaunchWithoutUNC,
    NeverUNC,
}

/// Why the settings could not be read.
#[derive(Debug)]
pub struct ConfigReadingError {
    details: String,
}

impl ConfigReadingError {
    pub closed spec fn details_spec(&self) -> Seq<char> {
        self.details@
    }

    pub fn new(details: &str) -> (r: ConfigReadingError)
        ensures
            r.details_spec() == details@,
    {
        ConfigReadingError { details: String::from_str(details) }
    }

    /// The description of the error.
    pub fn details(&self) -> (r: String)
        ensures
            r@ == self.details_spec(),
    {
        self.details.clone()
    }
}

/// The setting that a `cwd_handling` value names, if any.
pub open spec fn cwd_handling_named(s: Seq<char>) -> Option<WindowsCwdHandling> {
    if s == "FullUNC"@ {
        Some(WindowsCwdHandling::FullUNC)
    } else if s == "LaunchWithoutUNC"@ {
        Some(WindowsCwdHandling::LaunchWithoutUNC)
    } else if s == "NeverUNC"@ {
        Some(WindowsCwdHandling::NeverUNC)
    } else {
        None
    }
}

pub open spec fn unknown_value_details() -> Seq<char> {
    "Unknown cwd_handling value"@
}

pub open spec fn not_a_table_details() -> Seq<char> {
    "Expected windows to be a table"@
}

pub open spec fn not_a_string_details() -> Seq<char> {
    "cwd_handling needs to be a string"@
}

/// The setting named by a `cwd_handling` value.
pub fn cwd_handling_from_name(name: &str) -> (r: Result<WindowsCwdHandling, ConfigReadingError>)
    ensures
        match r {
            Ok(h) => cwd_handling_named(name@) == Some(h),
            Err(e) => cwd_handling_named(name@) is None && e.details_spec() == unknown_value_details(),
        },
{
    let given = String::from_str(name);
    if given == String::from_str("FullUNC") {
        Ok(WindowsCwdHandling::FullUNC)
    } else if given == String::from_str("LaunchWithoutUNC") {
        Ok(WindowsCwdHandling::LaunchWithoutUNC)
    } else if given == String::from_str("NeverUNC") {
        Ok(WindowsCwdHandling::NeverUNC)
    } else {
        Err(ConfigReadingError::new("Unknown cwd_handling value"))
    }
}

/// What a settings document holds at `windows.cwd_handling`.
pub enum CwdSetting {
    /// There is no `windows` table, or no `cwd_handling` in it.
    Absent,
    /// `windows` is there but is not a table.
    SectionNotATable,
    /// `cwd_handling` is there but is not a string.
    NotAString,
    /// `cwd_handling` is the string given.
    Text(String),
}

/// The user's settings.
pub trait UserSettingProvider {
    spec fn cwd_handling(&self) -> WindowsCwdHandling;

    fn windows_cwd_handling(&self) -> (r: WindowsCwdHandling)
        ensures
            r == self.cwd_handling(),
    ;
}

/// Settings read from a TOML document.
pub struct FileUserSettingProvider {
    windows_cwd_handling: WindowsCwdHandling,
}

impl UserSettingProvider for FileUserSettingProvider {
    closed spec fn cwd_handling(&self) -> WindowsCwdHandling {
        self.windows_cwd_handling
    }

    fn windows_cwd_handling(&self) -> (r: WindowsCwdHandling) {
        self.windows_cwd_handling
    }
}

impl FileUserSettingProvider {
    /// The settings that a document's `windows.cwd_handling` entry gives: an
    /// absent entry leaves `LaunchWithoutUNC`.
    pub fn from_cwd_setting(setting: CwdSetting) -> (r: Result<
        FileUserSettingProvider,
        ConfigReadingError,
    >)
        ensures
            match setting {
                CwdSetting::Absent => r matches Ok(p) && p.cwd_handling()
                    == WindowsCwdHandling::LaunchWithoutUNC,
                CwdSetting::SectionNotATable => r matches Err(e) && e.details_spec()
                    == not_a_table_details(),
                CwdSetting::NotAString => r matches Err(e) && e.details_spec()
                    == not_a_string_details(),
                CwdSetting::Text(s) => match cwd_handling_named(s@) {
                    Some(h) => r matches Ok(p) && p.cwd_handling() == h,
                    None => r matches Err(e) && e.details_spec() == unknown_value_details(),
                },
            },
    {
        match setting {
            CwdSetting::Absent => Ok(
                FileUserSettingProvider { windows_cwd_handling: WindowsCwdHandling::LaunchWithoutUNC },
            ),
            CwdSetting::SectionNotATable => Err(
                ConfigReadingError::new("Expected windows to be a table"),
            ),
            CwdSetting::NotAString => Err(ConfigReadingError::new("cwd_handling needs to be a string")),
            CwdSetting::Text(s) => match cwd_handling_from_name(s.as_str()) {
                Ok(h) => Ok(FileUserSettingProvider { windows_cwd_handling: h }),
                Err(e) => Err(e),
            },
        }
    }

    /// Reads the settings from the text of a TOML document. A document that is
    /// not TOML gives the parser's message; otherwise the result is that of
    /// `from_cwd_setting` on what the document holds.
    pub fn from_toml_text(text: &str) -> (r: Result<FileUserSettingProvider, ConfigReadingError>) {
        let table = match parse_toml_table(text) {
            Ok(t) => t,
            Err(message) => {
                return Err(ConfigReadingError { details: message });
            },
        };
        let setting = match toml_table_get(&table, "windows") {
            None => CwdSetting::Absent,
            Some(section) => match toml_value_as_table(section) {
                None => CwdSetting::SectionNotATable,
                Some(windows) => match toml_table_get(windows, "cwd_handling") {
                    None => CwdSetting::Absent,
                    Some(value) => match toml_value_as_str(value) {
                        None => CwdSetting::NotAString,
                        Some(s) => CwdSetting::Text(String::from_str(s)),
                    },
                },
            },
        };
        FileUserSettingProvider::from_cwd_setting(setting)
    }
}

/// Relies on `toml::Table`'s `FromStr` (`toml::from_str`): the document as a
/// table, or the parser's error message.
#[verifier::external_body]
fn parse_toml_table(text: &str) -> Result<toml::Table, String> {
    match text.parse::<toml::Table>() {
        Ok(t) => Ok(t),
        Err(e) => Err(e.to_string()),
    }
}

/// Relies on `toml::map::Map::get`: the value under `key`, if any.
#[verifier::external_body]
fn toml_table_get<'a>(table: &'a toml::Table, key: &str) -> Option<&'a toml::Value> {
    table.get(key)
}

/// Relies on `toml::Value::as_table`: the table, when the value is one.
#[verifier::external_body]
fn toml_value_as_table(value: &toml::Value) -> Option<&toml::Table> {
    value.as_table()
}

/// Relies on `toml::Value::as_str`: the string, when the value is one.
#[verifier::external_body]
fn toml_value_as_str(value: &toml::Value) -> Option<&str> {
    value.as_str()
}

} // verus!
