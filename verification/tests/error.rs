use opengamecore::error::{Error, IoError, IoErrorKind};

#[test]
fn user_messages_are_helpful() {
    let err = Error::WineNotFound("wine64".into());
    let msg = err.user_message();
    assert!(msg.contains("Wine not found"));
    assert!(msg.contains("Settings"));

    let err = Error::BottleNotFound("/foo/bar".into());
    let msg = err.user_message();
    assert!(msg.contains("bottle not found"));
}

#[test]
fn user_message_io_permission_denied() {
    let err = Error::Io(IoError { kind: IoErrorKind::PermissionDenied, message: "test".into() });
    assert!(err.user_message().contains("Permission denied"));
}

#[test]
fn user_message_download() {
    let err = Error::Download("connection refused".into());
    let msg = err.user_message();
    assert!(msg.contains("Download failed"));
    assert!(msg.contains("internet connection"));
}

#[test]
fn user_message_process() {
    let err = Error::Process("segfault".into());
    assert!(err.user_message().contains("crashed"));
}

#[test]
fn user_messages_exact() {
    assert_eq!(
        Error::Io(IoError { kind: IoErrorKind::NotFound, message: "x".into() }).user_message(),
        "File or directory not found."
    );
    assert_eq!(
        Error::Io(IoError { kind: IoErrorKind::Other, message: "disk full".into() }).user_message(),
        "System error: disk full"
    );
    assert_eq!(Error::Config("bad".into()).user_message(), "Configuration error: bad");
    assert_eq!(
        Error::TomlParse("x".into()).user_message(),
        "Failed to parse configuration file. It may be corrupted."
    );
    assert_eq!(Error::TomlSerialize("x".into()).user_message(), "Failed to save configuration.");
    assert_eq!(
        Error::BottleNotFound("/foo/bar".into()).user_message(),
        "Game bottle not found at /foo/bar. Try resetting the bottle."
    );
    assert_eq!(Error::GameNotFound("nope".into()).user_message(), "Game 'nope' not found in library.");
}

#[test]
fn descriptions() {
    assert_eq!(Error::GameNotFound("nope".into()).description(), "Game not found: nope");
    assert_eq!(Error::Download("timeout".into()).description(), "Download failed: timeout");
    assert_eq!(
        Error::Io(IoError { kind: IoErrorKind::Other, message: "boom".into() }).description(),
        "IO error: boom"
    );
}
