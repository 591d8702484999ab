use prismatic::session::{DesktopSession, SessionError};
use prismatic::settings::session_summary;

#[test]
fn detects_supported_wayland_desktops_from_composite_names() {
    assert_eq!(
        DesktopSession::detect("GNOME:GNOME-Classic", "wayland").unwrap(),
        DesktopSession::Gnome
    );
    assert_eq!(
        DesktopSession::detect("KDE", "wayland").unwrap(),
        DesktopSession::Plasma
    );
}

#[test]
fn rejects_x11_even_when_the_desktop_name_is_supported() {
    let error = DesktopSession::detect("GNOME", "x11").unwrap_err();
    assert_eq!(error, SessionError::UnsupportedSessionType("x11".into()));
}

#[test]
fn rejects_desktops_outside_the_version_one_scope() {
    let error = DesktopSession::detect("sway", "wayland").unwrap_err();
    assert_eq!(error, SessionError::UnsupportedDesktop("sway".into()));
}

#[test]
fn detection_ignores_ascii_case_and_takes_the_first_supported_entry() {
    assert_eq!(
        DesktopSession::detect("sway:plasma:GNOME", "Wayland").unwrap(),
        DesktopSession::Plasma
    );
    assert_eq!(
        DesktopSession::detect("ubuntu:gnome-classic", "WAYLAND").unwrap(),
        DesktopSession::Gnome
    );
    assert_eq!(
        DesktopSession::detect("", "wayland").unwrap_err(),
        SessionError::UnsupportedDesktop("".into())
    );
    assert_eq!(
        DesktopSession::detect("GNOME", "").unwrap_err(),
        SessionError::UnsupportedSessionType("".into())
    );
}

#[test]
fn session_errors_read_as_the_settings_window_shows_them() {
    assert_eq!(
        SessionError::UnsupportedSessionType("x11".into()).describe(),
        "unsupported session type: x11; Prismatic v1 requires Wayland"
    );
    assert_eq!(
        SessionError::UnsupportedDesktop("sway".into()).describe(),
        "unsupported desktop: sway; Prismatic v1 supports GNOME and Plasma"
    );
}

#[test]
fn session_summary_names_the_desktop_or_the_reason() {
    assert_eq!(session_summary("GNOME", "wayland").unwrap(), "Gnome on Wayland");
    assert_eq!(session_summary("KDE", "wayland").unwrap(), "Plasma on Wayland");
    assert_eq!(
        session_summary("GNOME", "x11").unwrap_err(),
        "unsupported session type: x11; Prismatic v1 requires Wayland"
    );
}
