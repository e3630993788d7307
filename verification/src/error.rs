//! The library's error type.
use vstd::prelude::*;
use vstd::std_specs::convert::FromSpecImpl;
use crate::text::{chars_of, push_str, string_from_chars};

verus! {

/// Unified error type for save operations (the crate already holds the
/// outside `Error` types it wraps, hence the longer name).
#[derive(Debug)]
pub enum SaveError {
    /// Error from the package reader, by its text.
    Package(String),
    /// A file was not found inside an LSV package.
    FileNotFound(String),
    Io(std::io::Error),
    Json(serde_json::Error),
    Toml(toml::de::Error),
    Utf8(std::string::FromUtf8Error),
    Other(String),
}

/// The `Display` text of an I/O error (std's `io::Error` formatting, which may
/// include the operating system's message).
#[verifier::external_body]
fn io_error_text(e: &std::io::Error) -> String {
    format!("{}", e)
}

/// The `Display` text of a `serde_json` error.
#[verifier::external_body]
fn json_error_text(e: &serde_json::Error) -> String {
    format!("{}", e)
}

/// The `Display` text of a `toml` error.
#[verifier::external_body]
fn toml_error_text(e: &toml::de::Error) -> String {
    format!("{}", e)
}

/// The `Display` text of a UTF-8 decoding error.
#[verifier::external_body]
pub(crate) fn utf8_error_text(e: &std::string::FromUtf8Error) -> String {
    format!("{}", e)
}

impl SaveError {
    /// The message of the error: the text itself for `Package` and `Other`,
    /// `File '<name>' not found in package` for `FileNotFound`, and the wrapped
    /// error's own message otherwise.
    pub fn message(&self) -> (r: String)
        ensures
            self matches SaveError::Package(s) ==> r@ == s@,
            self matches SaveError::Other(s) ==> r@ == s@,
            self matches SaveError::FileNotFound(n) ==> r@ == "File '"@ + n@ + "' not found in package"@,
    {
        match self {
            SaveError::Package(s) => s.clone(),
            SaveError::FileNotFound(n) => {
                let mut out = chars_of("File '");
                push_str(&mut out, n.as_str());
                push_str(&mut out, "' not found in package");
                string_from_chars(out)
            },
            SaveError::Io(e) => io_error_text(e),
            SaveError::Json(e) => json_error_text(e),
            SaveError::Toml(e) => toml_error_text(e),
            SaveError::Utf8(e) => utf8_error_text(e),
            SaveError::Other(s) => s.clone(),
        }
    }
}

impl From<std::io::Error> for SaveError {
    fn from(e: std::io::Error) -> (r: SaveError) {
        SaveError::Io(e)
    }
}

impl FromSpecImpl<std::io::Error> for SaveError {
    open spec fn obeys_from_spec() -> bool {
        true
    }

    open spec fn from_spec(v: std::io::Error) -> SaveError {
        SaveError::Io(v)
    }
}

impl From<serde_json::Error> for SaveError {
    fn from(e: serde_json::Error) -> (r: SaveError) {
        SaveError::Json(e)
    }
}

impl FromSpecImpl<serde_json::Error> for SaveError {
    open spec fn obeys_from_spec() -> bool {
        true
    }

    open spec fn from_spec(v: serde_json::Error) -> SaveError {
        SaveError::Json(v)
    }
}

impl From<toml::de::Error> for SaveError {
    fn from(e: toml::de::Error) -> (r: SaveError) {
        SaveError::Toml(e)
    }
}

impl FromSpecImpl<toml::de::Error> for SaveError {
    open spec fn obeys_from_spec() -> bool {
        true
    }

    open spec fn from_spec(v: toml::de::Error) -> SaveError {
        SaveError::Toml(v)
    }
}

impl From<std::string::FromUtf8Error> for SaveError {
    fn from(e: std::string::FromUtf8Error) -> (r: SaveError) {
        SaveError::Utf8(e)
    }
}

impl FromSpecImpl<std::string::FromUtf8Error> for SaveError {
    open spec fn obeys_from_spec() -> bool {
        true
    }

    open spec fn from_spec(v: std::string::FromUtf8Error) -> SaveError {
        SaveError::Utf8(v)
    }
}

} // verus!
