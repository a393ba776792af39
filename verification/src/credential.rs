//! The API key Jev is called with.
//!
//! Read once and held as a value that never prints itself, so it cannot end up
//! in a log line, a panic message, or a transcript.
use crate::text::trim;
use vstd::prelude::*;

verus! {

/// The variable holding the key itself.
pub const ENV_KEY: &'static str = "TYPESAFE_API_KEY";

/// The variable naming a file that holds the key.
pub const ENV_KEY_FILE: &'static str = "TYPESAFE_API_KEY_FILE";

/// An API key, held so that it never prints itself.
#[derive(Clone, PartialEq, Eq)]
pub struct ApiKey(String);

/// A key could not be found or read.
#[derive(Debug, Clone, PartialEq, Eq)]
pub enum CredentialError {
    /// Neither variable is set.
    Missing,
    /// A key was found, but it is blank.
    Empty,
    /// The key file could not be read.
    Unreadable {
        /// The file that was named.
        path: String,
        /// What reading it reported.
        reason: String,
    },
}

impl View for ApiKey {
    type V = Seq<char>;

    closed spec fn view(&self) -> Seq<char> {
        self.0@
    }
}

/// Where a key is to be read from, of the two places one can be given.
#[derive(Debug, Clone, PartialEq, Eq)]
pub enum KeySource {
    /// Read the file at this path.
    File(String),
    /// Use this value as it stands.
    Value(String),
}

impl ApiKey {
    /// Wrap a key, trimmed of the white space a file or a paste leaves.
    ///
    /// Refused with [`CredentialError::Empty`] when nothing is left.
    pub fn new(raw: &str) -> (r: Result<ApiKey, CredentialError>)
        ensures
            trim(raw@).len() == 0 <==> r == Err::<ApiKey, CredentialError>(CredentialError::Empty),
            trim(raw@).len() > 0 <==> r is Ok,
            r matches Ok(k) ==> k@ == trim(raw@),
    {
        let chars = crate::text::chars_of(raw);
        let trimmed = crate::text::trim_chars(chars.as_slice());
        if trimmed.len() == 0 {
            return Err(CredentialError::Empty);
        }
        Ok(ApiKey(crate::text::string_of(trimmed.as_slice())))
    }

    /// Where a key is to be read from: the file named by `key_file` when it
    /// names one, and otherwise `key` itself.
    ///
    /// A file wins over a value, so a key can be kept out of the environment
    /// of every process the shell starts. Refused with
    /// [`CredentialError::Missing`] when neither is given.
    pub fn source_of(key_file: Option<&str>, key: Option<&str>) -> (r: Result<KeySource, CredentialError>)
        ensures
            match key_file {
                Some(path) if trim(path@).len() > 0 => r matches Ok(KeySource::File(p)) && p@ == trim(path@),
                _ => match key {
                    Some(k) => r matches Ok(KeySource::Value(v)) && v@ == k@,
                    None => r == Err::<KeySource, CredentialError>(CredentialError::Missing),
                },
            },
    {
        match key_file {
            Some(path) => {
                let chars = crate::text::chars_of(path);
                let trimmed = crate::text::trim_chars(chars.as_slice());
                if trimmed.len() > 0 {
                    return Ok(KeySource::File(crate::text::string_of(trimmed.as_slice())));
                }
            },
            None => {},
        }
        match key {
            Some(k) => Ok(KeySource::Value(String::from_str(k))),
            None => Err(CredentialError::Missing),
        }
    }

    /// The key, for the one place it is sent.
    pub fn expose(&self) -> (s: &str)
        ensures
            s@ == self@,
    {
        self.0.as_str()
    }

    /// How the key describes itself: never with its contents.
    pub fn redacted(&self) -> (s: String)
        ensures
            s@ == "ApiKey(<redacted>)"@,
    {
        String::from_str("ApiKey(<redacted>)")
    }
}

impl CredentialError {
    /// What went wrong, for a person to read.
    pub fn message(&self) -> (s: String)
        ensures
            s@ == match self {
                CredentialError::Missing => "set TYPESAFE_API_KEY or TYPESAFE_API_KEY_FILE"@,
                CredentialError::Empty => "the configured API key is empty"@,
                CredentialError::Unreadable { path, .. } => "cannot read key file "@ + path@,
            },
    {
        match self {
            CredentialError::Missing => String::from_str("set TYPESAFE_API_KEY or TYPESAFE_API_KEY_FILE"),
            CredentialError::Empty => String::from_str("the configured API key is empty"),
            CredentialError::Unreadable { path, .. } => {
                let mut s = String::from_str("cannot read key file ");
                crate::text::push_str(&mut s, path.as_str());
                s
            },
        }
    }
}

} // verus!
