//! The error type of the library.

use vstd::prelude::*;
use vstd::string::StringExecFns;

verus! {

/// Errors of the library. An I/O error carries its message.
#[derive(Debug)]
pub enum CoreError {
    Registry(String),
    Io(String),
    Zip(String),
    Audio(String),
    SoundTooLong,
    Patching(String),
    Permission(String),
    Scheme(String),
    Archive(String),
    Settings(String),
    MissingTranslation(String),
    Other(String),
}

pub type CoreResult<T> = Result<T, CoreError>;

/// The name of the variant, used as a discriminant by the user interface.
pub open spec fn spec_kind(e: CoreError) -> Seq<char> {
    match e {
        CoreError::Registry(_) => "Registry"@,
        CoreError::Io(_) => "Io"@,
        CoreError::Zip(_) => "Zip"@,
        CoreError::Audio(_) => "Audio"@,
        CoreError::SoundTooLong => "SoundTooLong"@,
        CoreError::Patching(_) => "Patching"@,
        CoreError::Permission(_) => "Permission"@,
        CoreError::Scheme(_) => "Scheme"@,
        CoreError::Archive(_) => "Archive"@,
        CoreError::Settings(_) => "Settings"@,
        CoreError::MissingTranslation(_) => "MissingTranslation"@,
        CoreError::Other(_) => "Other"@,
    }
}

/// The human-readable message of an error.
pub open spec fn spec_message(e: CoreError) -> Seq<char> {
    match e {
        CoreError::Registry(m) => "registry error: "@ + m@,
        CoreError::Io(m) => "io error: "@ + m@,
        CoreError::Zip(m) => "zip error: "@ + m@,
        CoreError::Audio(m) => "audio error: "@ + m@,
        CoreError::SoundTooLong => "sound file too long (max 30s)"@,
        CoreError::Patching(m) => "imageres patching: "@ + m@,
        CoreError::Permission(m) => "access denied (admin required): "@ + m@,
        CoreError::Scheme(m) => "scheme error: "@ + m@,
        CoreError::Archive(m) => "archive error: "@ + m@,
        CoreError::Settings(m) => "settings error: "@ + m@,
        CoreError::MissingTranslation(m) => "translation key not found: "@ + m@,
        CoreError::Other(m) => m@,
    }
}

/// The message `prefix` followed by `m`.
pub(crate) fn prefixed(prefix: &str, m: &String) -> (r: String)
    ensures
        r@ == prefix@ + m@,
{
    let mut r = prefix.to_owned();
    r.append(m.as_str());
    r
}

impl CoreError {
    /// Serialization kind discriminant for typed error handling.
    pub fn kind(&self) -> (r: &'static str)
        ensures
            r@ == spec_kind(*self),
    {
        match self {
            CoreError::Registry(_) => "Registry",
            CoreError::Io(_) => "Io",
            CoreError::Zip(_) => "Zip",
            CoreError::Audio(_) => "Audio",
            CoreError::SoundTooLong => "SoundTooLong",
            CoreError::Patching(_) => "Patching",
            CoreError::Permission(_) => "Permission",
            CoreError::Scheme(_) => "Scheme",
            CoreError::Archive(_) => "Archive",
            CoreError::Settings(_) => "Settings",
            CoreError::MissingTranslation(_) => "MissingTranslation",
            CoreError::Other(_) => "Other",
        }
    }

    /// The error's message, as displayed to the user.
    pub fn message(&self) -> (r: String)
        ensures
            r@ == spec_message(*self),
    {
        match self {
            CoreError::Registry(m) => prefixed("registry error: ", m),
            CoreError::Io(m) => prefixed("io error: ", m),
            CoreError::Zip(m) => prefixed("zip error: ", m),
            CoreError::Audio(m) => prefixed("audio error: ", m),
            CoreError::SoundTooLong => "sound file too long (max 30s)".to_owned(),
            CoreError::Patching(m) => prefixed("imageres patching: ", m),
            CoreError::Permission(m) => prefixed("access denied (admin required): ", m),
            CoreError::Scheme(m) => prefixed("scheme error: ", m),
            CoreError::Archive(m) => prefixed("archive error: ", m),
            CoreError::Settings(m) => prefixed("settings error: ", m),
            CoreError::MissingTranslation(m) => prefixed("translation key not found: ", m),
            CoreError::Other(m) => m.clone(),
        }
    }
}

} // verus!
