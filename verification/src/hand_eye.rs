//! The hand (input injection) and the eye (screen capture): both are open
//! only to applications that the allowlist permits, and the eye never reads
//! text.
use vstd::prelude::*;

use crate::selfheal::failure_status_spec;
use crate::text::{chars_of, join, join_path, lower, lower_chars, owned, push_str, string_from_chars, trim, trim_str};
use crate::time::Duration;

verus! {

#[derive(Debug, Clone, PartialEq, Eq)]
pub struct AllowlistRule {
    pub app_id: String,
    pub allowed: bool,
}

#[derive(Debug, Clone, PartialEq, Eq)]
pub struct AllowlistConfig {
    pub apps: Vec<AllowlistRule>,
}

#[derive(Debug, Clone, PartialEq, Eq)]
pub struct Allowlist {
    pub apps: Vec<AllowlistRule>,
}

/// Some rule names `app_id` and allows it.
pub open spec fn allows(apps: Seq<AllowlistRule>, app_id: Seq<char>) -> bool {
    exists|i: int| 0 <= i < apps.len() && (#[trigger] apps[i]).app_id@ == app_id && apps[i].allowed
}

impl Allowlist {
    pub fn is_allowed(&self, app_id: &str) -> (b: bool)
        ensures
            b == allows(self.apps@, app_id@),
    {
        let mut i: usize = 0;
        while i < self.apps.len()
            invariant
                i <= self.apps@.len(),
                forall|j: int|
                    0 <= j < i ==> !((#[trigger] self.apps@[j]).app_id@ == app_id@ && self.apps@[j].allowed),
            decreases self.apps.len() - i,
        {
            let rule = &self.apps[i];
            if rule.allowed && crate::text::str_eq(rule.app_id.as_str(), app_id) {
                return true;
            }
            i = i + 1;
        }
        false
    }

    /// The allowlist file inside a configuration directory.
    pub fn path_for_config(directory: &str) -> (p: String)
        ensures
            p@ == join_path(directory@, "allowlist.toml"@),
    {
        join(directory, "allowlist.toml")
    }
}

#[derive(Debug, Clone, PartialEq, Eq)]
pub enum PortalError {
    NotAuthorized,
    UnsupportedAction,
    MissingAppId,
    Dbus(String),
    Clipboard(String),
}

impl PortalError {
    /// The message shown for the error.
    pub fn message(&self) -> (s: String)
        ensures
            self matches PortalError::NotAuthorized ==> s@
                == "application is not allowed by the portal allowlist"@,
            self matches PortalError::UnsupportedAction ==> s@ == "portal action is unsupported"@,
            self matches PortalError::MissingAppId ==> s@ == "application identifier is required"@,
            self matches PortalError::Dbus(m) ==> s@ == "dbus error: "@ + m@,
            self matches PortalError::Clipboard(m) ==> s@ == "clipboard error: "@ + m@,
    {
        match self {
            PortalError::NotAuthorized => owned("application is not allowed by the portal allowlist"),
            PortalError::UnsupportedAction => owned("portal action is unsupported"),
            PortalError::MissingAppId => owned("application identifier is required"),
            PortalError::Dbus(m) => {
                let mut out: Vec<char> = Vec::new();
                push_str(&mut out, "dbus error: ");
                push_str(&mut out, m.as_str());
                string_from_chars(&out)
            },
            PortalError::Clipboard(m) => {
                let mut out: Vec<char> = Vec::new();
                push_str(&mut out, "clipboard error: ");
                push_str(&mut out, m.as_str());
                string_from_chars(&out)
            },
        }
    }
}

#[derive(Debug, Clone, PartialEq, Eq)]
pub struct PortalRequest {
    pub app_id: String,
    pub action: String,
}

/// The authorisation of an application: a blank id is missing, an id that
/// the allowlist does not allow is refused.
pub open spec fn authorization(apps: Seq<AllowlistRule>, app_id: Seq<char>) -> Result<(), PortalError> {
    if trim(app_id).len() == 0 {
        Err(PortalError::MissingAppId)
    } else if !allows(apps, app_id) {
        Err(PortalError::NotAuthorized)
    } else {
        Ok(())
    }
}

/// Checks that `app_id` is given and allowed.
pub fn ensure_allowed_application(allowlist: &Allowlist, app_id: &str) -> (r: Result<(), PortalError>)
    ensures
        r == authorization(allowlist.apps@, app_id@),
{
    if trim_str(app_id).len() == 0 {
        return Err(PortalError::MissingAppId);
    }
    if !allowlist.is_allowed(app_id) {
        return Err(PortalError::NotAuthorized);
    }
    Ok(())
}

/// The portal for a target application is open exactly when it is allowed.
pub fn portal_for_target(allowlist: &Allowlist, target: &str) -> (r: Result<(), PortalError>)
    ensures
        r == authorization(allowlist.apps@, target@),
{
    ensure_allowed_application(allowlist, target)
}

/// The outcome of a portal call for `action`: refused when the application
/// is, unsupported unless the action is `expected`, otherwise the `started`
/// message followed by the application id.
pub open spec fn portal_call(
    apps: Seq<AllowlistRule>,
    request: PortalRequest,
    expected: Seq<char>,
    started: Seq<char>,
) -> Result<Seq<char>, PortalError> {
    match authorization(apps, request.app_id@) {
        Err(e) => Err(e),
        Ok(_) => if request.action@ != expected {
            Err(PortalError::UnsupportedAction)
        } else {
            Ok(started + request.app_id@)
        },
    }
}

pub struct PortalClient {
    pub allowlist: Allowlist,
}

impl PortalClient {
    pub fn new(allowlist: Allowlist) -> (c: PortalClient)
        ensures
            c.allowlist == allowlist,
    {
        PortalClient { allowlist }
    }

    pub fn authorize(&self, app_id: &str) -> (r: Result<(), PortalError>)
        ensures
            r == authorization(self.allowlist.apps@, app_id@),
    {
        ensure_allowed_application(&self.allowlist, app_id)
    }

    fn call(&self, request: &PortalRequest, expected: &str, started: &str) -> (r: Result<
        String,
        PortalError,
    >)
        ensures
            r matches Ok(s) ==> portal_call(self.allowlist.apps@, *request, expected@, started@)
                == Ok::<Seq<char>, PortalError>(s@),
            r matches Err(e) ==> portal_call(self.allowlist.apps@, *request, expected@, started@)
                == Err::<Seq<char>, PortalError>(e),
    {
        match self.authorize(request.app_id.as_str()) {
            Err(e) => Err(e),
            Ok(()) => {
                if !crate::text::str_eq(request.action.as_str(), expected) {
                    return Err(PortalError::UnsupportedAction);
                }
                let mut out: Vec<char> = Vec::new();
                push_str(&mut out, started);
                push_str(&mut out, request.app_id.as_str());
                Ok(string_from_chars(&out))
            },
        }
    }

    /// Starts a screen cast for an allowed application.
    pub fn call_screen_cast(&self, request: &PortalRequest) -> (r: Result<String, PortalError>)
        ensures
            r matches Ok(s) ==> portal_call(
                self.allowlist.apps@,
                *request,
                "screenshare"@,
                "screen-cast started for "@,
            ) == Ok::<Seq<char>, PortalError>(s@),
            r matches Err(e) ==> portal_call(
                self.allowlist.apps@,
                *request,
                "screenshare"@,
                "screen-cast started for "@,
            ) == Err::<Seq<char>, PortalError>(e),
    {
        self.call(request, "screenshare", "screen-cast started for ")
    }

    /// Grants remote desktop input to an allowed application.
    pub fn call_remote_desktop(&self, request: &PortalRequest) -> (r: Result<String, PortalError>)
        ensures
            r matches Ok(s) ==> portal_call(
                self.allowlist.apps@,
                *request,
                "remote-input"@,
                "remote desktop access granted to "@,
            ) == Ok::<Seq<char>, PortalError>(s@),
            r matches Err(e) ==> portal_call(
                self.allowlist.apps@,
                *request,
                "remote-input"@,
                "remote desktop access granted to "@,
            ) == Err::<Seq<char>, PortalError>(e),
    {
        self.call(request, "remote-input", "remote desktop access granted to ")
    }

    /// The target does not matter: only the application is checked.
    pub fn require_allowed_app_id(&self, app_id: &str, target: &str) -> (r: Result<(), PortalError>)
        ensures
            r == authorization(self.allowlist.apps@, app_id@),
    {
        self.authorize(app_id)
    }
}

/// The status text written into the new maestro after a failure.
pub fn build_failure_status_text(app_id: &str, failure_reason: &str, elapsed: Duration) -> (s: String)
    requires
        elapsed.wf(),
    ensures
        s@ == failure_status_spec(app_id@, failure_reason@, elapsed@),
{
    crate::selfheal::build_failure_status_summary(app_id, failure_reason, elapsed)
}

/// What the eye's capture stream may be used for.
#[derive(Debug, Clone, Copy, PartialEq, Eq, Structural)]
pub enum CapturePurpose {
    Capture,
    SelfDiagnosis,
    OcrTextReading,
}

/// A key event for the hand.
#[derive(Debug, Clone, Copy, PartialEq, Eq, Structural)]
pub enum InputEvent {
    KeyPress(i32),
    KeyRelease(i32),
}

/// Only allowlisted applications can drive the hand.
pub fn authorize_injection(allowlist: &Allowlist, app_id: &str) -> (r: Result<(), PortalError>)
    ensures
        r == authorization(allowlist.apps@, app_id@),
{
    ensure_allowed_application(allowlist, app_id)
}

/// The eye is for image capture and self-diagnosis of allowed applications;
/// reading text from the stream is never permitted.
pub fn authorize_capture(allowlist: &Allowlist, app_id: &str, purpose: CapturePurpose) -> (r: Result<
    (),
    PortalError,
>)
    ensures
        authorization(allowlist.apps@, app_id@) matches Err(e) ==> r == Err::<(), PortalError>(e),
        authorization(allowlist.apps@, app_id@) is Ok ==> (purpose == CapturePurpose::OcrTextReading
            <==> r == Err::<(), PortalError>(PortalError::UnsupportedAction)),
        authorization(allowlist.apps@, app_id@) is Ok ==> (purpose != CapturePurpose::OcrTextReading
            <==> r is Ok),
{
    match ensure_allowed_application(allowlist, app_id) {
        Err(e) => Err(e),
        Ok(()) => match purpose {
            CapturePurpose::Capture | CapturePurpose::SelfDiagnosis => Ok(()),
            CapturePurpose::OcrTextReading => Err(PortalError::UnsupportedAction),
        },
    }
}

/// The result text of an injected event.
pub fn injection_report(app_id: &str) -> (s: String)
    ensures
        s@ == "remote desktop input injected for "@ + app_id@,
{
    let mut out: Vec<char> = Vec::new();
    push_str(&mut out, "remote desktop input injected for ");
    push_str(&mut out, app_id);
    string_from_chars(&out)
}

/// The result text of a started capture with `streams` streams.
pub fn capture_report(app_id: &str, streams: u64) -> (s: String)
    ensures
        s@ == "screen cast capture started for "@ + app_id@ + " ("@ + crate::text::decimal(
            streams as nat,
        ) + " streams)"@,
{
    let mut out: Vec<char> = Vec::new();
    push_str(&mut out, "screen cast capture started for ");
    push_str(&mut out, app_id);
    push_str(&mut out, " (");
    let d = crate::text::decimal_chars(streams);
    crate::text::push_chars(&mut out, &d);
    push_str(&mut out, " streams)");
    assert(out@ =~= "screen cast capture started for "@ + app_id@ + " ("@ + crate::text::decimal(
        streams as nat,
    ) + " streams)"@);
    string_from_chars(&out)
}

// ---------------------------------------------------------------------------
// Reading files
// ---------------------------------------------------------------------------

#[derive(Debug, Clone, PartialEq, Eq)]
pub enum FileReadError {
    UnsupportedExtension,
    Io(String),
}

/// The extension of `path` as `std::path::Path::extension` gives it (the
/// part of the file name after its last `.`, if the name has one beyond a
/// leading dot).
pub uninterp spec fn path_extension(path: Seq<char>) -> Option<Seq<char>>;

/// Calls `std::path::Path::extension` and converts the result to a string.
/// The contract claims the result is `path_extension` of the path; on a path
/// given as `&str` the conversion back to `str` always succeeds.
#[verifier::external_body]
pub(crate) fn extension_of(path: &str) -> (r: Option<String>)
    ensures
        r matches Some(e) ==> path_extension(path@) == Some(e@),
        r is None ==> path_extension(path@) is None,
{
    std::path::Path::new(path).extension().and_then(|e| e.to_str()).map(|e| e.to_string())
}

/// The extensions that may be read (compared without case).
pub open spec fn readable_extension(ext: Seq<char>) -> bool {
    let e = lower(ext);
    e == "png"@ || e == "jpg"@ || e == "jpeg"@ || e == "webp"@ || e == "pdf"@
}

/// An extension is readable exactly when, ignoring case, it is one of png,
/// jpg, jpeg, webp or pdf.
pub proof fn lemma_readable_extensions(ext: Seq<char>)
    ensures
        readable_extension(ext) <==> seq!["png"@, "jpg"@, "jpeg"@, "webp"@, "pdf"@].contains(lower(ext)),
{
    let l = seq!["png"@, "jpg"@, "jpeg"@, "webp"@, "pdf"@];
    let e = lower(ext);
    if readable_extension(ext) {
        if e == "png"@ {
            assert(l[0] == e);
        } else if e == "jpg"@ {
            assert(l[1] == e);
        } else if e == "jpeg"@ {
            assert(l[2] == e);
        } else if e == "webp"@ {
            assert(l[3] == e);
        } else {
            assert(l[4] == e);
        }
    }
    if l.contains(e) {
        let i = choose|i: int| 0 <= i < l.len() && l[i] == e;
        assert(i == 0 || i == 1 || i == 2 || i == 3 || i == 4);
    }
}

/// Checks that a file may be read: its extension must be one of the image
/// or PDF extensions.
pub fn check_readable_extension(path: &str) -> (r: Result<(), FileReadError>)
    ensures
        r is Ok <==> (path_extension(path@) matches Some(e) && readable_extension(e)),
        r is Err ==> r == Err::<(), FileReadError>(FileReadError::UnsupportedExtension),
{
    match extension_of(path) {
        None => Err(FileReadError::UnsupportedExtension),
        Some(ext) => {
            let cs = chars_of(ext.as_str());
            let e = lower_chars(&cs);
            if crate::text::chars_eq_str(&e, "png") || crate::text::chars_eq_str(&e, "jpg")
                || crate::text::chars_eq_str(&e, "jpeg") || crate::text::chars_eq_str(&e, "webp")
                || crate::text::chars_eq_str(&e, "pdf") {
                Ok(())
            } else {
                Err(FileReadError::UnsupportedExtension)
            }
        },
    }
}

} // verus!
