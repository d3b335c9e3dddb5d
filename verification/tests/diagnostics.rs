use studio_core::diagnostics::{redact, support_bundle};

#[test]
fn hides_secrets() {
    assert!(!redact("password=hello\nhost=ok").contains("hello"));
}

#[test]
fn redaction_line_by_line() {
    assert_eq!(redact("password=hello\nhost=ok"), "[redacted]\nhost=ok\n");
    assert_eq!(redact("Bearer TOKEN x\r\nport=1\n"), "[redacted]\nport=1\n");
    assert_eq!(redact("AUTHORIZATION: y\n\nname=SeCrEt"), "[redacted]\n\n[redacted]\n");
    assert_eq!(redact("pass=1\nphrase\nkeep\r"), "pass=1\nphrase\nkeep\r\n");
    assert_eq!(redact(""), "");
    assert_eq!(redact("\n"), "\n");
    assert_eq!(redact("passphrase"), "[redacted]\n");
}

#[test]
fn support_bundle_layout() {
    assert_eq!(
        support_bundle("[]", "{\"token\": 1}\nmode=srt"),
        "Melukoda Studio support bundle\n\nEvents:\n[]\nSettings (redacted):\n[redacted]\nmode=srt\n"
    );
}

#[test]
fn redacting_twice_changes_nothing() {
    for text in ["password=hello\nhost=ok", "a\n\nSecret: b\nc", "", "[redacted]\nport=2\n", "TOKEN"] {
        let once = redact(text);
        assert_eq!(redact(&once), once);
    }
}
