//! Reading the configuration table of a preprocessor.
//!
//! The table is a TOML table. A lookup hands a value out as a `Setting`:
//! what the value is as a string, what it is as a boolean, and how it
//! prints, which is all that validation reads.

use vstd::prelude::*;
use crate::error::ConfigError;
use crate::error::ConfigErrorView;

verus! {

/// `toml::map::Map`, a TOML table, as an opaque type.
#[verifier::external_type_specification]
#[verifier::external_body]
#[verifier::reject_recursive_types(K)]
#[verifier::reject_recursive_types(V)]
pub struct ExTomlMap<K, V>(toml::map::Map<K, V>);

/// `toml::Value`, as an opaque type.
#[verifier::external_type_specification]
#[verifier::external_body]
pub struct ExTomlValue(toml::Value);

/// One value of a configuration table.
#[derive(Debug)]
pub struct Setting {
    /// The string, if the value is a string.
    pub text: Option<String>,
    /// The boolean, if the value is a boolean.
    pub flag: Option<bool>,
    /// The value as `{:?}` prints it.
    pub shown: String,
}

pub struct SettingView {
    pub text: Option<Seq<char>>,
    pub flag: Option<bool>,
    pub shown: Seq<char>,
}

impl View for Setting {
    type V = SettingView;

    open spec fn view(&self) -> SettingView {
        SettingView {
            text: match self.text {
                Some(t) => Some(t@),
                None => None,
            },
            flag: self.flag,
            shown: self.shown@,
        }
    }
}

/// What a table holds: under each key, the value as a `Setting`.
pub uninterp spec fn table_settings(table: toml::map::Map<String, toml::Value>) -> Map<
    Seq<char>,
    SettingView,
>;

/// `Map::get` of the `toml` crate, with the value found handed out as a
/// `Setting` (through `Value::as_str`, `Value::as_bool` and the `Debug`
/// formatter). The contract says that the lookup finds exactly what the
/// table holds under the key.
#[verifier::external_body]
fn table_get(table: &toml::map::Map<String, toml::Value>, key: &str) -> (r: Option<Setting>)
    ensures
        match r {
            Some(s) => table_settings(*table).contains_key(key@) && table_settings(*table)[key@]
                == s@,
            None => !table_settings(*table).contains_key(key@),
        },
{
    table.get(key).map(
        |v|
            Setting {
                text: v.as_str().map(|s| s.to_string()),
                flag: v.as_bool(),
                shown: format!("{:?}", v),
            },
    )
}

/// What a lookup of a string gives: nothing where the key is absent, the
/// string where the value is one, and else the error that names the key
/// and shows the value.
pub open spec fn text_of(
    settings: Map<Seq<char>, SettingView>,
    key: Seq<char>,
) -> Option<Result<Seq<char>, ConfigErrorView>> {
    if !settings.contains_key(key) {
        None
    } else {
        match settings[key].text {
            Some(t) => Some(Ok(t)),
            None => Some(Err(ConfigErrorView::NotAString { key, shown: settings[key].shown })),
        }
    }
}

/// What a lookup of a boolean gives, in the same way.
pub open spec fn flag_of(
    settings: Map<Seq<char>, SettingView>,
    key: Seq<char>,
) -> Option<Result<bool, ConfigErrorView>> {
    if !settings.contains_key(key) {
        None
    } else {
        match settings[key].flag {
            Some(b) => Some(Ok(b)),
            None => Some(Err(ConfigErrorView::NotABoolean { key, shown: settings[key].shown })),
        }
    }
}

/// The view of the result of a string lookup.
pub open spec fn text_result_view(r: Option<Result<String, ConfigError>>) -> Option<
    Result<Seq<char>, ConfigErrorView>,
> {
    match r {
        None => None,
        Some(Ok(t)) => Some(Ok(t@)),
        Some(Err(e)) => Some(Err(e@)),
    }
}

/// The view of the result of a boolean lookup.
pub open spec fn flag_result_view(r: Option<Result<bool, ConfigError>>) -> Option<
    Result<bool, ConfigErrorView>,
> {
    match r {
        None => None,
        Some(Ok(b)) => Some(Ok(b)),
        Some(Err(e)) => Some(Err(e@)),
    }
}

/// Looks a string up in the table.
pub fn get_value_to_str(table: &toml::map::Map<String, toml::Value>, key: &str) -> (r: Option<
    Result<String, ConfigError>,
>)
    ensures
        text_result_view(r) == text_of(table_settings(*table), key@),
{
    match table_get(table, key) {
        None => None,
        Some(setting) => {
            match setting.text {
                Some(t) => Some(Ok(t)),
                None => Some(
                    Err(ConfigError::NotAString { key: key.to_owned(), shown: setting.shown }),
                ),
            }
        },
    }
}

/// Looks a boolean up in the table.
pub fn get_value_to_bool(table: &toml::map::Map<String, toml::Value>, key: &str) -> (r: Option<
    Result<bool, ConfigError>,
>)
    ensures
        flag_result_view(r) == flag_of(table_settings(*table), key@),
{
    match table_get(table, key) {
        None => None,
        Some(setting) => {
            match setting.flag {
                Some(b) => Some(Ok(b)),
                None => Some(
                    Err(ConfigError::NotABoolean { key: key.to_owned(), shown: setting.shown }),
                ),
            }
        },
    }
}

} // verus!
