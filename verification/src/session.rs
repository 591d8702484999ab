//! Detection of the supported desktop session from the session environment.

use vstd::prelude::*;

use crate::text::{eq_ignore_ascii_case, split_on, split_text, text_eq_ignore_ascii_case};

verus! {

/// A supported Wayland desktop.
#[derive(Debug, Clone, Copy, PartialEq, Eq, Structural)]
pub enum DesktopSession {
    Gnome,
    Plasma,
}

/// Why the current session is not supported.
#[derive(Debug, Clone, PartialEq, Eq)]
pub enum SessionError {
    UnsupportedSessionType(String),
    UnsupportedDesktop(String),
}

/// Mathematical value of a [`SessionError`].
pub ghost enum SessionErrorView {
    UnsupportedSessionType(Seq<char>),
    UnsupportedDesktop(Seq<char>),
}

impl View for SessionError {
    type V = SessionErrorView;

    open spec fn view(&self) -> SessionErrorView {
        match self {
            SessionError::UnsupportedSessionType(t) => SessionErrorView::UnsupportedSessionType(t@),
            SessionError::UnsupportedDesktop(d) => SessionErrorView::UnsupportedDesktop(d@),
        }
    }
}

/// The desktop that one `XDG_CURRENT_DESKTOP` entry names, compared without ASCII case.
pub open spec fn session_named(name: Seq<char>) -> Option<DesktopSession> {
    if eq_ignore_ascii_case(name, "gnome"@) || eq_ignore_ascii_case(name, "gnome-classic"@) {
        Some(DesktopSession::Gnome)
    } else if eq_ignore_ascii_case(name, "kde"@) || eq_ignore_ascii_case(name, "plasma"@) {
        Some(DesktopSession::Plasma)
    } else {
        None
    }
}

/// The desktop named by the first supported entry of `names`.
pub open spec fn first_supported(names: Seq<Seq<char>>) -> Option<DesktopSession>
    decreases names.len(),
{
    if names.len() == 0 {
        None
    } else {
        match session_named(names[0]) {
            Some(s) => Some(s),
            None => first_supported(names.drop_first()),
        }
    }
}

/// What detection gives for a `XDG_CURRENT_DESKTOP` value (a `:`-separated list) and a
/// `XDG_SESSION_TYPE` value: Wayland is required, then the first supported entry decides.
pub open spec fn detected(current_desktop: Seq<char>, session_type: Seq<char>) -> Result<
    DesktopSession,
    SessionErrorView,
> {
    if !eq_ignore_ascii_case(session_type, "wayland"@) {
        Err(SessionErrorView::UnsupportedSessionType(session_type))
    } else {
        match first_supported(split_on(current_desktop, ':')) {
            Some(s) => Ok(s),
            None => Err(SessionErrorView::UnsupportedDesktop(current_desktop)),
        }
    }
}

/// The text of a session error, as it reads in the settings window.
pub open spec fn session_error_text(e: SessionErrorView) -> Seq<char> {
    match e {
        SessionErrorView::UnsupportedSessionType(t) => "unsupported session type: "@ + t
            + "; Prismatic v1 requires Wayland"@,
        SessionErrorView::UnsupportedDesktop(d) => "unsupported desktop: "@ + d
            + "; Prismatic v1 supports GNOME and Plasma"@,
    }
}

impl DesktopSession {
    /// Detects the desktop from `XDG_CURRENT_DESKTOP` and `XDG_SESSION_TYPE`.
    pub fn detect(current_desktop: &str, session_type: &str) -> (r: Result<Self, SessionError>)
        ensures
            match r {
                Ok(s) => detected(current_desktop@, session_type@) == Ok::<
                    DesktopSession,
                    SessionErrorView,
                >(s),
                Err(e) => detected(current_desktop@, session_type@) == Err::<
                    DesktopSession,
                    SessionErrorView,
                >(e@),
            },
    {
        if !text_eq_ignore_ascii_case(session_type, "wayland") {
            return Err(SessionError::UnsupportedSessionType(String::from_str(session_type)));
        }
        let desktops = split_text(current_desktop, ':');
        let ghost names = desktops@.map_values(|p: String| p@);
        let mut i: usize = 0;
        assert(names.skip(0) =~= names);
        while i < desktops.len()
            invariant
                names == desktops@.map_values(|p: String| p@),
                names == split_on(current_desktop@, ':'),
                eq_ignore_ascii_case(session_type@, "wayland"@),
                i <= desktops.len(),
                first_supported(names) == first_supported(names.skip(i as int)),
            decreases desktops.len() - i,
        {
            let desktop = desktops[i].as_str();
            proof {
                assert(names[i as int] == desktops@[i as int]@);
                assert(names.skip(i as int)[0] == names[i as int]);
                assert(names.skip(i as int).drop_first() =~= names.skip(i + 1));
            }
            if text_eq_ignore_ascii_case(desktop, "gnome") || text_eq_ignore_ascii_case(
                desktop,
                "gnome-classic",
            ) {
                return Ok(DesktopSession::Gnome);
            }
            if text_eq_ignore_ascii_case(desktop, "kde") || text_eq_ignore_ascii_case(
                desktop,
                "plasma",
            ) {
                return Ok(DesktopSession::Plasma);
            }
            i = i + 1;
        }
        assert(names.skip(i as int) =~= Seq::<Seq<char>>::empty());
        Err(SessionError::UnsupportedDesktop(String::from_str(current_desktop)))
    }
}

impl SessionError {
    /// The error as text, for the settings window.
    pub fn describe(&self) -> (s: String)
        ensures
            s@ == session_error_text(self@),
    {
        match self {
            SessionError::UnsupportedSessionType(t) => {
                let mut s = String::from_str("unsupported session type: ");
                s.append(t.as_str());
                s.append("; Prismatic v1 requires Wayland");
                s
            },
            SessionError::UnsupportedDesktop(d) => {
                let mut s = String::from_str("unsupported desktop: ");
                s.append(d.as_str());
                s.append("; Prismatic v1 supports GNOME and Plasma");
                s
            },
        }
    }
}

} // verus!
