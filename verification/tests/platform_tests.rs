use clippy_share::bridge::daemon_status;
use clippy_share::crypto::CryptoEngine;
use clippy_share::platform::wayland::gtk_clipboard;
use clippy_share::platform::wayland::portal::PortalAdapter;
use clippy_share::platform::wayland::wlr_data_control;
use clippy_share::platform::wayland::{is_gnome_session, names_gnome};
use clippy_share::platform::{
    choose_adapter, classify_clipboard, is_text_mime, AdapterKind, ClipData, ClipboardError,
    TargetPlatform,
};

#[test]
fn text_mime_types() {
    assert!(is_text_mime("text/plain"));
    assert!(is_text_mime("text/plain;charset=utf-8"));
    assert!(is_text_mime("application/x-utf-8"));
    assert!(is_text_mime("STRING"));
    assert!(is_text_mime("UTF8_STRING"));
    assert!(!is_text_mime("image/png"));
    assert!(!is_text_mime("TEXT/plain"));
    assert!(!is_text_mime("string"));
}

#[test]
fn clipboard_payloads_are_classified() {
    match classify_clipboard("text/plain".to_string(), "héllo".as_bytes().to_vec()) {
        ClipData::Text(t) => assert_eq!(t, "héllo"),
        other => panic!("unexpected {:?}", other),
    }
    match classify_clipboard("text/plain".to_string(), vec![0xff, 0xfe]) {
        ClipData::Raw { mime_type, bytes } => {
            assert_eq!(mime_type, "text/plain");
            assert_eq!(bytes, vec![0xff, 0xfe]);
        }
        other => panic!("unexpected {:?}", other),
    }
    match classify_clipboard("image/png".to_string(), b"abc".to_vec()) {
        ClipData::Raw { mime_type, bytes } => {
            assert_eq!(mime_type, "image/png");
            assert_eq!(bytes, b"abc".to_vec());
        }
        other => panic!("unexpected {:?}", other),
    }
}

#[test]
fn adapter_choice_follows_platform_and_display() {
    assert_eq!(choose_adapter(TargetPlatform::Linux, true, true), AdapterKind::Wayland);
    assert_eq!(choose_adapter(TargetPlatform::Linux, false, true), AdapterKind::X11);
    assert_eq!(choose_adapter(TargetPlatform::Linux, false, false), AdapterKind::Android);
    assert_eq!(choose_adapter(TargetPlatform::Windows, true, true), AdapterKind::Windows);
    assert_eq!(choose_adapter(TargetPlatform::Android, true, false), AdapterKind::Android);
    assert_eq!(choose_adapter(TargetPlatform::Other, false, true), AdapterKind::Android);
}

#[test]
fn gnome_sessions_are_recognised_case_blind() {
    assert!(is_gnome_session(&Some("ubuntu:GNOME".to_string()), &None, &None));
    assert!(is_gnome_session(&None, &Some("gnome-xorg".to_string()), &None));
    assert!(is_gnome_session(&None, &None, &Some("Gnome".to_string())));
    assert!(!is_gnome_session(&Some("KDE".to_string()), &Some("sway".to_string()), &None));
    assert!(!is_gnome_session(&None, &None, &None));
    assert!(names_gnome("xgnomex"));
    assert!(!names_gnome("GNOME"));
}

#[test]
fn stub_backends_are_unsupported_and_portal_refuses() {
    assert!(!gtk_clipboard::is_supported());
    assert!(!wlr_data_control::is_supported());
    match PortalAdapter::new().set_text("x") {
        Err(e) => assert_eq!(e.to_string(), "Portal clipboard apply is not implemented yet"),
        Ok(()) => panic!("portal should refuse"),
    }
    assert_eq!(ClipboardError::new("m".to_string()).to_string(), "m");
}

#[test]
fn crypto_round_trip() {
    let engine = CryptoEngine::new();
    let sealed = engine.encrypt(b"secret");
    assert_eq!(sealed, b"secret".to_vec());
    assert_eq!(engine.decrypt(&sealed), b"secret".to_vec());
}

#[test]
fn bridge_status_text() {
    assert_eq!(daemon_status(true), "daemon_running");
    assert_eq!(daemon_status(false), "daemon_not_started");
}
