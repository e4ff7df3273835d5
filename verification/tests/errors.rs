use sparkdns::errors::AppError;

#[test]
fn every_error_is_shown_with_its_prefix() {
    let cases = [
        (AppError::Config("c".into()), "Configuration error: c"),
        (AppError::Validation("v".into()), "Validation error: v"),
        (AppError::Command("x".into()), "Command execution failed: x"),
        (AppError::Io("i".into()), "IO error: i"),
        (AppError::Serde("s".into()), "Serialization error: s"),
        (AppError::Unsupported("u".into()), "Operation not supported on this platform: u"),
        (AppError::ElevationRequired("e".into()), "Elevation required: e"),
        (AppError::Timeout("t".into()), "Timeout waiting for command: t"),
        (AppError::Other("plain".into()), "plain"),
    ];
    for (e, text) in cases {
        assert_eq!(e.message(), text);
    }
}

#[test]
fn constructors_pick_their_variant() {
    assert!(matches!(AppError::validation("a"), AppError::Validation(ref m) if m == "a"));
    assert!(matches!(AppError::config("b"), AppError::Config(ref m) if m == "b"));
    assert!(matches!(AppError::command("c"), AppError::Command(ref m) if m == "c"));
}
