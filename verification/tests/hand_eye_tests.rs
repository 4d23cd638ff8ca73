use ai_bridge::hand_eye::{
    authorize_capture, authorize_injection, build_failure_status_text, capture_report,
    check_readable_extension, ensure_allowed_application, injection_report, portal_for_target,
    Allowlist, AllowlistRule, CapturePurpose, FileReadError, PortalClient, PortalError,
    PortalRequest,
};
use ai_bridge::time::Duration;

fn allowlist(app: &str) -> Allowlist {
    Allowlist { apps: vec![AllowlistRule { app_id: app.to_string(), allowed: true }] }
}

#[test]
fn injection_is_restricted_to_allowlisted_apps() {
    let l = allowlist("org.gnome.Terminal");
    assert!(authorize_injection(&l, "org.gnome.Terminal").is_ok());
    assert!(matches!(authorize_injection(&l, "org.mozilla.firefox"), Err(PortalError::NotAuthorized)));
}

#[test]
fn capture_rejects_ocr_text_reading() {
    let l = allowlist("org.gnome.Terminal");
    assert!(authorize_capture(&l, "org.gnome.Terminal", CapturePurpose::Capture).is_ok());
    assert!(authorize_capture(&l, "org.gnome.Terminal", CapturePurpose::SelfDiagnosis).is_ok());
    assert!(matches!(
        authorize_capture(&l, "org.gnome.Terminal", CapturePurpose::OcrTextReading),
        Err(PortalError::UnsupportedAction)
    ));
}

#[test]
fn failure_status_text_uses_app_id_reason_and_elapsed() {
    let text = build_failure_status_text("org.gnome.Terminal", "SilentTimeout", Duration::from_secs(45));
    assert!(text.contains("org.gnome.Terminal"));
    assert!(text.contains("SilentTimeout"));
    assert!(text.contains("45s"));
}

#[test]
fn portal_rejects_unlisted_applications() {
    let client = PortalClient::new(allowlist("org.mozilla.firefox"));
    let request = PortalRequest {
        app_id: "org.gnome.Terminal".to_string(),
        action: "screenshare".to_string(),
    };
    assert!(matches!(client.call_screen_cast(&request), Err(PortalError::NotAuthorized)));
}

#[test]
fn portal_allows_listed_applications() {
    let client = PortalClient::new(allowlist("org.mozilla.firefox"));
    let request = PortalRequest {
        app_id: "org.mozilla.firefox".to_string(),
        action: "screenshare".to_string(),
    };
    assert!(client.call_screen_cast(&request).is_ok());
}

#[test]
fn portal_messages_and_refusals_are_exact() {
    let client = PortalClient::new(allowlist("app"));
    let ok = PortalRequest { app_id: "app".to_string(), action: "remote-input".to_string() };
    assert_eq!(client.call_remote_desktop(&ok), Ok("remote desktop access granted to app".to_string()));
    assert_eq!(client.call_screen_cast(&ok), Err(PortalError::UnsupportedAction));
    let cast = PortalRequest { app_id: "app".to_string(), action: "screenshare".to_string() };
    assert_eq!(client.call_screen_cast(&cast), Ok("screen-cast started for app".to_string()));
    assert_eq!(client.authorize("  "), Err(PortalError::MissingAppId));
    assert_eq!(client.require_allowed_app_id("app", "anything"), Ok(()));
    assert_eq!(PortalError::Dbus("x".to_string()).message(), "dbus error: x");
}

#[test]
fn a_rule_that_disallows_grants_nothing() {
    let l = Allowlist { apps: vec![AllowlistRule { app_id: "org.gnome.Nautilus".to_string(), allowed: false }] };
    assert!(!l.is_allowed("org.gnome.Nautilus"));
    assert_eq!(ensure_allowed_application(&l, "org.gnome.Nautilus"), Err(PortalError::NotAuthorized));
    assert_eq!(portal_for_target(&l, ""), Err(PortalError::MissingAppId));
    assert_eq!(Allowlist::path_for_config("/etc/ai-bridge"), "/etc/ai-bridge/allowlist.toml");
}

#[test]
fn accepts_allowed_file_extensions() {
    assert!(check_readable_extension("/tmp/ai_bridge_eye_1.png").is_ok());
    assert!(check_readable_extension("/tmp/shot.JPEG").is_ok());
    assert!(check_readable_extension("report.pdf").is_ok());
}

#[test]
fn rejects_forbidden_file_extensions() {
    assert_eq!(check_readable_extension("/tmp/ai_bridge_eye_1.txt"), Err(FileReadError::UnsupportedExtension));
    assert_eq!(check_readable_extension("/tmp/noext"), Err(FileReadError::UnsupportedExtension));
    assert_eq!(check_readable_extension("/tmp/.png"), Err(FileReadError::UnsupportedExtension));
}

#[test]
fn reports_name_the_application() {
    assert_eq!(injection_report("app"), "remote desktop input injected for app");
    assert_eq!(capture_report("app", 2), "screen cast capture started for app (2 streams)");
}

#[test]
fn read_errors_explain_themselves() {
    assert_eq!(
        FileReadError::UnsupportedExtension.message(),
        "file extension is not permitted for reading"
    );
    assert_eq!(FileReadError::Io("gone".to_string()).message(), "I/O error: gone");
}
