use vstd::prelude::*;

verus! {

/// The kind of an I/O failure, as far as the library tells kinds apart.
#[derive(Debug, Clone, Copy, PartialEq, Eq, Structural)]
pub enum IoErrorKind {
    NotFound,
    PermissionDenied,
    Other,
}

/// An I/O failure: its kind and its message as the operating system gave it.
#[derive(Debug, Clone)]
pub struct IoError {
    pub kind: IoErrorKind,
    pub message: String,
}

/// Errors of the library.
#[derive(Debug, Clone)]
pub enum Error {
    Io(IoError),
    Config(String),
    TomlParse(String),
    TomlSerialize(String),
    WineNotFound(String),
    BottleNotFound(String),
    GameNotFound(String),
    Download(String),
    Process(String),
}

pub type Result<T> = core::result::Result<T, Error>;

/// The message shown to a user for an error.
pub open spec fn spec_user_message(e: Error) -> Seq<char> {
    match e {
        Error::Io(io) => match io.kind {
            IoErrorKind::PermissionDenied => "Permission denied. Check file permissions."@,
            IoErrorKind::NotFound => "File or directory not found."@,
            IoErrorKind::Other => "System error: "@ + io.message@,
        },
        Error::Config(msg) => "Configuration error: "@ + msg@,
        Error::TomlParse(_) => "Failed to parse configuration file. It may be corrupted."@,
        Error::TomlSerialize(_) => "Failed to save configuration."@,
        Error::WineNotFound(msg) => "Wine not found: "@ + msg@
            + ". Install Wine or configure the path in Settings."@,
        Error::BottleNotFound(path) => "Game bottle not found at "@ + path@
            + ". Try resetting the bottle."@,
        Error::GameNotFound(slug) => "Game '"@ + slug@ + "' not found in library."@,
        Error::Download(msg) => "Download failed: "@ + msg@ + ". Check your internet connection."@,
        Error::Process(msg) => "Process error: "@ + msg@ + ". The game may have crashed."@,
    }
}

/// The one-line description of an error (its display form).
pub open spec fn spec_description(e: Error) -> Seq<char> {
    match e {
        Error::Io(io) => "IO error: "@ + io.message@,
        Error::Config(msg) => "Config error: "@ + msg@,
        Error::TomlParse(msg) => "TOML parse error: "@ + msg@,
        Error::TomlSerialize(msg) => "TOML serialize error: "@ + msg@,
        Error::WineNotFound(msg) => "Wine not found: "@ + msg@,
        Error::BottleNotFound(path) => "Bottle not found: "@ + path@,
        Error::GameNotFound(slug) => "Game not found: "@ + slug@,
        Error::Download(msg) => "Download failed: "@ + msg@,
        Error::Process(msg) => "Process error: "@ + msg@,
    }
}

fn concat2(a: &str, b: &str) -> (r: String)
    ensures
        r@ == a@ + b@,
{
    let mut s = String::from_str(a);
    s.append(b);
    s
}

fn concat3(a: &str, b: &str, c: &str) -> (r: String)
    ensures
        r@ == a@ + b@ + c@,
{
    let mut s = String::from_str(a);
    s.append(b);
    s.append(c);
    s
}

impl Error {
    /// Returns a user-friendly error message suitable for display in the GUI.
    pub fn user_message(&self) -> (r: String)
        ensures
            r@ == spec_user_message(*self),
    {
        match self {
            Error::Io(io) => match io.kind {
                IoErrorKind::PermissionDenied => String::from_str(
                    "Permission denied. Check file permissions.",
                ),
                IoErrorKind::NotFound => String::from_str("File or directory not found."),
                IoErrorKind::Other => concat2("System error: ", io.message.as_str()),
            },
            Error::Config(msg) => concat2("Configuration error: ", msg.as_str()),
            Error::TomlParse(_) => String::from_str(
                "Failed to parse configuration file. It may be corrupted.",
            ),
            Error::TomlSerialize(_) => String::from_str("Failed to save configuration."),
            Error::WineNotFound(msg) => concat3(
                "Wine not found: ",
                msg.as_str(),
                ". Install Wine or configure the path in Settings.",
            ),
            Error::BottleNotFound(path) => concat3(
                "Game bottle not found at ",
                path.as_str(),
                ". Try resetting the bottle.",
            ),
            Error::GameNotFound(slug) => concat3("Game '", slug.as_str(), "' not found in library."),
            Error::Download(msg) => concat3(
                "Download failed: ",
                msg.as_str(),
                ". Check your internet connection.",
            ),
            Error::Process(msg) => concat3(
                "Process error: ",
                msg.as_str(),
                ". The game may have crashed.",
            ),
        }
    }

    /// The one-line description of the error.
    pub fn description(&self) -> (r: String)
        ensures
            r@ == spec_description(*self),
    {
        match self {
            Error::Io(io) => concat2("IO error: ", io.message.as_str()),
            Error::Config(msg) => concat2("Config error: ", msg.as_str()),
            Error::TomlParse(msg) => concat2("TOML parse error: ", msg.as_str()),
            Error::TomlSerialize(msg) => concat2("TOML serialize error: ", msg.as_str()),
            Error::WineNotFound(msg) => concat2("Wine not found: ", msg.as_str()),
            Error::BottleNotFound(path) => concat2("Bottle not found: ", path.as_str()),
            Error::GameNotFound(slug) => concat2("Game not found: ", slug.as_str()),
            Error::Download(msg) => concat2("Download failed: ", msg.as_str()),
            Error::Process(msg) => concat2("Process error: ", msg.as_str()),
        }
    }
}

} // verus!
