//! The errors that stop a run before any document is touched, and the one
//! that stops it when an aggregate cannot be encoded.

use vstd::prelude::*;
use vstd::string::StringExecFns;

verus! {

/// What `{:?}` prints for a string: the text between double quotes, with
/// the characters that Rust escapes written as escapes.
pub uninterp spec fn debug_text(s: Seq<char>) -> Seq<char>;

/// Calls the `Debug` formatter of `str`. The contract only names the text
/// that comes back, which depends on the argument alone.
#[verifier::external_body]
pub(crate) fn debug_string(s: &str) -> (r: String)
    ensures
        r@ == debug_text(s@),
{
    format!("{:?}", s)
}

/// A configuration that cannot be used.
#[derive(Debug)]
pub enum ConfigError {
    /// The value under `key` should be a string; `shown` is how it prints.
    NotAString { key: String, shown: String },
    /// The value under `key` should be a boolean; `shown` is how it prints.
    NotABoolean { key: String, shown: String },
    /// No pattern can be compiled around this marker.
    BadMarker { marker: String },
}

/// A `ConfigError` over character sequences.
pub enum ConfigErrorView {
    NotAString { key: Seq<char>, shown: Seq<char> },
    NotABoolean { key: Seq<char>, shown: Seq<char> },
    BadMarker { marker: Seq<char> },
}

impl View for ConfigError {
    type V = ConfigErrorView;

    open spec fn view(&self) -> ConfigErrorView {
        match self {
            ConfigError::NotAString { key, shown } => ConfigErrorView::NotAString {
                key: key@,
                shown: shown@,
            },
            ConfigError::NotABoolean { key, shown } => ConfigErrorView::NotABoolean {
                key: key@,
                shown: shown@,
            },
            ConfigError::BadMarker { marker } => ConfigErrorView::BadMarker { marker: marker@ },
        }
    }
}

impl ConfigErrorView {
    /// The sentence shown to the user: it names the key and the offending
    /// value, or the marker.
    pub open spec fn message(self) -> Seq<char> {
        match self {
            ConfigErrorView::NotAString { key, shown } => key + " "@ + shown
                + " is not a valid string"@,
            ConfigErrorView::NotABoolean { key, shown } => key + " "@ + shown
                + " is not a valid boolean type"@,
            ConfigErrorView::BadMarker { marker } => "marker "@ + debug_text(marker)
                + " has failed to be parsed into regular expression"@,
        }
    }
}

impl ConfigError {
    /// The sentence shown to the user.
    pub fn message(&self) -> (r: String)
        ensures
            r@ == self@.message(),
    {
        match self {
            ConfigError::NotAString { key, shown } => {
                let mut out = key.clone();
                out.append(" ");
                out.append(shown.as_str());
                out.append(" is not a valid string");
                out
            },
            ConfigError::NotABoolean { key, shown } => {
                let mut out = key.clone();
                out.append(" ");
                out.append(shown.as_str());
                out.append(" is not a valid boolean type");
                out
            },
            ConfigError::BadMarker { marker } => {
                let mut out = String::from_str("marker ");
                let quoted = debug_string(marker.as_str());
                out.append(quoted.as_str());
                out.append(" has failed to be parsed into regular expression");
                out
            },
        }
    }
}

/// An aggregate that could not be encoded.
#[derive(Debug)]
pub struct EncodeError {}

impl EncodeError {
    pub open spec fn message_text() -> Seq<char> {
        "Parsing into json has failed. Check out the Json syntax."@
    }

    /// The sentence shown to the user.
    pub fn message(&self) -> (r: String)
        ensures
            r@ == Self::message_text(),
    {
        String::from_str("Parsing into json has failed. Check out the Json syntax.")
    }
}

/// Why a run failed.
#[derive(Debug)]
pub enum RunError {
    /// The configuration cannot be used; no document was touched.
    Config(ConfigError),
    /// The collected data could not be encoded.
    Encode(EncodeError),
}

} // verus!
