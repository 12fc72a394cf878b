//! The shared error type and its wire shape. Every variant has a stable
//! machine-readable code and a CLI exit code, so that callers can branch on
//! failures without reading prose.
use vstd::prelude::*;

use crate::text::same;

verus! {

/// A JSON value, carried along unread.
#[verifier::external_type_specification]
#[verifier::external_body]
pub struct ExJsonValue(serde_json::Value);

/// What can go wrong, with the details as text.
#[derive(Debug)]
pub enum HadesError {
    InvalidSpec(String),
    ManifestNotFound(String),
    AppNotFound(String),
    AdmissionRejected(String),
    DoctorRed(String),
    Docker(String),
    Tunnel(String),
    DaemonUnreachable(String),
    Unauthorized(String),
    Io(String),
    Other(String),
}

/// The kind of an error, and the text that goes with it.
pub enum ErrorView {
    InvalidSpec(Seq<char>),
    ManifestNotFound(Seq<char>),
    AppNotFound(Seq<char>),
    AdmissionRejected(Seq<char>),
    DoctorRed(Seq<char>),
    Docker(Seq<char>),
    Tunnel(Seq<char>),
    DaemonUnreachable(Seq<char>),
    Unauthorized(Seq<char>),
    Io(Seq<char>),
    Other(Seq<char>),
}

impl View for HadesError {
    type V = ErrorView;

    open spec fn view(&self) -> ErrorView {
        match self {
            HadesError::InvalidSpec(s) => ErrorView::InvalidSpec(s@),
            HadesError::ManifestNotFound(s) => ErrorView::ManifestNotFound(s@),
            HadesError::AppNotFound(s) => ErrorView::AppNotFound(s@),
            HadesError::AdmissionRejected(s) => ErrorView::AdmissionRejected(s@),
            HadesError::DoctorRed(s) => ErrorView::DoctorRed(s@),
            HadesError::Docker(s) => ErrorView::Docker(s@),
            HadesError::Tunnel(s) => ErrorView::Tunnel(s@),
            HadesError::DaemonUnreachable(s) => ErrorView::DaemonUnreachable(s@),
            HadesError::Unauthorized(s) => ErrorView::Unauthorized(s@),
            HadesError::Io(s) => ErrorView::Io(s@),
            HadesError::Other(s) => ErrorView::Other(s@),
        }
    }
}

impl ErrorView {
    pub open spec fn code(self) -> Seq<char> {
        match self {
            ErrorView::InvalidSpec(_) => "invalid_spec"@,
            ErrorView::ManifestNotFound(_) => "manifest_not_found"@,
            ErrorView::AppNotFound(_) => "app_not_found"@,
            ErrorView::AdmissionRejected(_) => "admission_rejected"@,
            ErrorView::DoctorRed(_) => "doctor_red"@,
            ErrorView::Docker(_) => "docker"@,
            ErrorView::Tunnel(_) => "tunnel"@,
            ErrorView::DaemonUnreachable(_) => "daemon_unreachable"@,
            ErrorView::Unauthorized(_) => "unauthorized"@,
            ErrorView::Io(_) => "io"@,
            ErrorView::Other(_) => "other"@,
        }
    }

    pub open spec fn exit_code(self) -> i32 {
        match self {
            ErrorView::DoctorRed(_) => 2,
            ErrorView::AdmissionRejected(_) => 3,
            ErrorView::AppNotFound(_) => 4,
            ErrorView::DaemonUnreachable(_) => 5,
            ErrorView::InvalidSpec(_) | ErrorView::ManifestNotFound(_) => 6,
            ErrorView::Unauthorized(_) => 7,
            ErrorView::Docker(_) | ErrorView::Tunnel(_) | ErrorView::Io(_) | ErrorView::Other(_) => 1,
        }
    }

    /// The error as one line for people.
    pub open spec fn message(self) -> Seq<char> {
        match self {
            ErrorView::InvalidSpec(s) => "invalid spec: "@ + s,
            ErrorView::ManifestNotFound(s) => "no Hades.toml found: "@ + s,
            ErrorView::AppNotFound(s) => "app not found: "@ + s,
            ErrorView::AdmissionRejected(s) => "deploy rejected: "@ + s,
            ErrorView::DoctorRed(s) => "host not ready: "@ + s,
            ErrorView::Docker(s) => "docker error: "@ + s,
            ErrorView::Tunnel(s) => "tunnel error: "@ + s,
            ErrorView::DaemonUnreachable(s) => "daemon unreachable: "@ + s,
            ErrorView::Unauthorized(s) => "unauthorized: "@ + s,
            ErrorView::Io(s) => "io error: "@ + s,
            ErrorView::Other(s) => s,
        }
    }
}

impl HadesError {
    pub fn code(&self) -> (r: &'static str)
        ensures
            r@ == self@.code(),
    {
        match self {
            HadesError::InvalidSpec(_) => "invalid_spec",
            HadesError::ManifestNotFound(_) => "manifest_not_found",
            HadesError::AppNotFound(_) => "app_not_found",
            HadesError::AdmissionRejected(_) => "admission_rejected",
            HadesError::DoctorRed(_) => "doctor_red",
            HadesError::Docker(_) => "docker",
            HadesError::Tunnel(_) => "tunnel",
            HadesError::DaemonUnreachable(_) => "daemon_unreachable",
            HadesError::Unauthorized(_) => "unauthorized",
            HadesError::Io(_) => "io",
            HadesError::Other(_) => "other",
        }
    }

    /// Stable CLI exit codes: 0 ok, 1 generic, 2 doctor-red, 3 admission
    /// rejected, 4 not found, 5 daemon unreachable, 6 invalid spec/manifest,
    /// 7 unauthorized.
    pub fn exit_code(&self) -> (r: i32)
        ensures
            r == self@.exit_code(),
    {
        match self {
            HadesError::DoctorRed(_) => 2,
            HadesError::AdmissionRejected(_) => 3,
            HadesError::AppNotFound(_) => 4,
            HadesError::DaemonUnreachable(_) => 5,
            HadesError::InvalidSpec(_) | HadesError::ManifestNotFound(_) => 6,
            HadesError::Unauthorized(_) => 7,
            HadesError::Docker(_) | HadesError::Tunnel(_) | HadesError::Io(_) | HadesError::Other(_) => 1,
        }
    }

    /// The error as one line for people.
    pub fn message(&self) -> (r: String)
        ensures
            r@ == self@.message(),
    {
        match self {
            HadesError::InvalidSpec(s) => "invalid spec: ".to_owned().concat(s.as_str()),
            HadesError::ManifestNotFound(s) => "no Hades.toml found: ".to_owned().concat(s.as_str()),
            HadesError::AppNotFound(s) => "app not found: ".to_owned().concat(s.as_str()),
            HadesError::AdmissionRejected(s) => "deploy rejected: ".to_owned().concat(s.as_str()),
            HadesError::DoctorRed(s) => "host not ready: ".to_owned().concat(s.as_str()),
            HadesError::Docker(s) => "docker error: ".to_owned().concat(s.as_str()),
            HadesError::Tunnel(s) => "tunnel error: ".to_owned().concat(s.as_str()),
            HadesError::DaemonUnreachable(s) => "daemon unreachable: ".to_owned().concat(s.as_str()),
            HadesError::Unauthorized(s) => "unauthorized: ".to_owned().concat(s.as_str()),
            HadesError::Io(s) => "io error: ".to_owned().concat(s.as_str()),
            HadesError::Other(s) => s.clone(),
        }
    }
}

impl Clone for HadesError {
    fn clone(&self) -> (r: Self)
        ensures
            r@ == self@,
    {
        match self {
            HadesError::InvalidSpec(s) => HadesError::InvalidSpec(s.clone()),
            HadesError::ManifestNotFound(s) => HadesError::ManifestNotFound(s.clone()),
            HadesError::AppNotFound(s) => HadesError::AppNotFound(s.clone()),
            HadesError::AdmissionRejected(s) => HadesError::AdmissionRejected(s.clone()),
            HadesError::DoctorRed(s) => HadesError::DoctorRed(s.clone()),
            HadesError::Docker(s) => HadesError::Docker(s.clone()),
            HadesError::Tunnel(s) => HadesError::Tunnel(s.clone()),
            HadesError::DaemonUnreachable(s) => HadesError::DaemonUnreachable(s.clone()),
            HadesError::Unauthorized(s) => HadesError::Unauthorized(s.clone()),
            HadesError::Io(s) => HadesError::Io(s.clone()),
            HadesError::Other(s) => HadesError::Other(s.clone()),
        }
    }
}

/// Wire shape for errors: `{ "error": { "code", "message", "detail" } }`.
#[derive(Debug)]
pub struct ErrorBody {
    pub error: ErrorInner,
}

#[derive(Debug)]
pub struct ErrorInner {
    pub code: String,
    pub message: String,
    pub detail: Option<serde_json::Value>,
}

/// The error that a wire code and message stand for. Codes without a variant of
/// their own on the receiving side, `io` among them, become `Other`.
pub open spec fn error_of(code: Seq<char>, message: Seq<char>) -> ErrorView {
    if code == "invalid_spec"@ {
        ErrorView::InvalidSpec(message)
    } else if code == "manifest_not_found"@ {
        ErrorView::ManifestNotFound(message)
    } else if code == "app_not_found"@ {
        ErrorView::AppNotFound(message)
    } else if code == "admission_rejected"@ {
        ErrorView::AdmissionRejected(message)
    } else if code == "doctor_red"@ {
        ErrorView::DoctorRed(message)
    } else if code == "docker"@ {
        ErrorView::Docker(message)
    } else if code == "tunnel"@ {
        ErrorView::Tunnel(message)
    } else if code == "daemon_unreachable"@ {
        ErrorView::DaemonUnreachable(message)
    } else if code == "unauthorized"@ {
        ErrorView::Unauthorized(message)
    } else {
        ErrorView::Other(message)
    }
}

impl ErrorBody {
    pub fn new(err: &HadesError) -> (r: Self)
        ensures
            r.error.code@ == err@.code(),
            r.error.message@ == err@.message(),
            r.error.detail is None,
    {
        ErrorBody {
            error: ErrorInner { code: err.code().to_owned(), message: err.message(), detail: None },
        }
    }

    pub fn with_detail(err: &HadesError, detail: serde_json::Value) -> (r: Self)
        ensures
            r.error.code@ == err@.code(),
            r.error.message@ == err@.message(),
            r.error.detail == Some(detail),
    {
        ErrorBody {
            error: ErrorInner {
                code: err.code().to_owned(),
                message: err.message(),
                detail: Some(detail),
            },
        }
    }

    /// Reconstruct a typed error from a wire body (CLI side).
    pub fn to_error(&self) -> (r: HadesError)
        ensures
            r@ == error_of(self.error.code@, self.error.message@),
    {
        let msg = self.error.message.clone();
        let code = self.error.code.as_str();
        if same(code, "invalid_spec") {
            HadesError::InvalidSpec(msg)
        } else if same(code, "manifest_not_found") {
            HadesError::ManifestNotFound(msg)
        } else if same(code, "app_not_found") {
            HadesError::AppNotFound(msg)
        } else if same(code, "admission_rejected") {
            HadesError::AdmissionRejected(msg)
        } else if same(code, "doctor_red") {
            HadesError::DoctorRed(msg)
        } else if same(code, "docker") {
            HadesError::Docker(msg)
        } else if same(code, "tunnel") {
            HadesError::Tunnel(msg)
        } else if same(code, "daemon_unreachable") {
            HadesError::DaemonUnreachable(msg)
        } else if same(code, "unauthorized") {
            HadesError::Unauthorized(msg)
        } else {
            HadesError::Other(msg)
        }
    }
}

// ----------------------------------------------------------------------- laws

proof fn lemma_reveal_codes()
    ensures
        "invalid_spec"@.len() == 12 && "invalid_spec"@[0] == 'i',
        "manifest_not_found"@.len() == 18 && "manifest_not_found"@[0] == 'm',
        "app_not_found"@.len() == 13,
        "admission_rejected"@.len() == 18 && "admission_rejected"@[0] == 'a',
        "doctor_red"@.len() == 10,
        "docker"@.len() == 6 && "docker"@[0] == 'd',
        "tunnel"@.len() == 6 && "tunnel"@[0] == 't',
        "daemon_unreachable"@.len() == 18 && "daemon_unreachable"@[0] == 'd',
        "unauthorized"@.len() == 12 && "unauthorized"@[0] == 'u',
        "io"@.len() == 2,
        "other"@.len() == 5,
{
    reveal_strlit("invalid_spec");
    reveal_strlit("manifest_not_found");
    reveal_strlit("app_not_found");
    reveal_strlit("admission_rejected");
    reveal_strlit("doctor_red");
    reveal_strlit("docker");
    reveal_strlit("tunnel");
    reveal_strlit("daemon_unreachable");
    reveal_strlit("unauthorized");
    reveal_strlit("io");
    reveal_strlit("other");
}

/// An error sent over the wire comes out on the other side with the exit code it
/// had, and with the code it had unless it was an I/O error, which arrives as
/// `other` with the message that was sent. A refused admission arrives as one.
pub proof fn error_survives_the_wire(e: ErrorView)
    ensures
        error_of(e.code(), e.message()).exit_code() == e.exit_code(),
        e !is Io ==> error_of(e.code(), e.message()).code() == e.code(),
        e is Io ==> error_of(e.code(), e.message()) == ErrorView::Other(e.message()),
        e is AdmissionRejected ==> error_of(e.code(), e.message()) == ErrorView::AdmissionRejected(
            e.message(),
        ),
{
    lemma_reveal_codes();
}

/// A code names one kind of error: errors with the same code have the same exit
/// code.
pub proof fn code_determines_exit_code(e: ErrorView, f: ErrorView)
    requires
        e.code() == f.code(),
    ensures
        e.exit_code() == f.exit_code(),
{
    lemma_reveal_codes();
}

/// A daemon error and its wire form, as the client keeps them.
pub struct ApiError {
    pub error: HadesError,
    pub body: ErrorBody,
}

impl ApiError {
    /// An error of this side, with the wire form that the other side would have
    /// sent for it.
    pub fn from_error(error: HadesError) -> (r: ApiError)
        ensures
            r.error == error,
            r.body.error.code@ == error@.code(),
            r.body.error.message@ == error@.message(),
            r.body.error.detail is None,
    {
        let body = ErrorBody::new(&error);
        ApiError { error, body }
    }

    /// An error that came over the wire.
    pub fn from_body(body: ErrorBody) -> (r: ApiError)
        ensures
            r.body == body,
            r.error@ == error_of(body.error.code@, body.error.message@),
    {
        let error = body.to_error();
        ApiError { error, body }
    }
}

/// Exit codes are stable: scripts can tell the kinds of errors by them.
pub proof fn exit_codes_are_stable(e: ErrorView)
    ensures
        e.exit_code() == 2 <==> e is DoctorRed,
        e.exit_code() == 3 <==> e is AdmissionRejected,
        e.exit_code() == 4 <==> e is AppNotFound,
        e.exit_code() == 5 <==> e is DaemonUnreachable,
        e.exit_code() == 6 <==> e is InvalidSpec || e is ManifestNotFound,
        e.exit_code() == 7 <==> e is Unauthorized,
        e.exit_code() == 1 <==> e is Docker || e is Tunnel || e is Io || e is Other,
        e.exit_code() != 0,
{
}

/// What an error says is in its line for people, whole and at its end.
pub proof fn messages_end_with_what_went_wrong(e: ErrorView, s: Seq<char>)
    requires
        e == ErrorView::InvalidSpec(s) || e == ErrorView::ManifestNotFound(s) || e
            == ErrorView::AppNotFound(s) || e == ErrorView::AdmissionRejected(s) || e
            == ErrorView::DoctorRed(s) || e == ErrorView::Docker(s) || e == ErrorView::Tunnel(s)
            || e == ErrorView::DaemonUnreachable(s) || e == ErrorView::Unauthorized(s) || e
            == ErrorView::Io(s) || e == ErrorView::Other(s),
    ensures
        e.message().len() >= s.len(),
        e.message().skip(e.message().len() - s.len()) == s,
{
    assert(e.message().skip(e.message().len() - s.len()) =~= s);
}

/// An error is read back from its code, as the kind that it was, with the message that came
/// with it; only an I/O error has no kind of its own there.
pub proof fn codes_name_their_kind(e: ErrorView, m: Seq<char>)
    ensures
        e is InvalidSpec ==> error_of(e.code(), m) == ErrorView::InvalidSpec(m),
        e is ManifestNotFound ==> error_of(e.code(), m) == ErrorView::ManifestNotFound(m),
        e is AppNotFound ==> error_of(e.code(), m) == ErrorView::AppNotFound(m),
        e is AdmissionRejected ==> error_of(e.code(), m) == ErrorView::AdmissionRejected(m),
        e is DoctorRed ==> error_of(e.code(), m) == ErrorView::DoctorRed(m),
        e is Docker ==> error_of(e.code(), m) == ErrorView::Docker(m),
        e is Tunnel ==> error_of(e.code(), m) == ErrorView::Tunnel(m),
        e is DaemonUnreachable ==> error_of(e.code(), m) == ErrorView::DaemonUnreachable(m),
        e is Unauthorized ==> error_of(e.code(), m) == ErrorView::Unauthorized(m),
        e is Io || e is Other ==> error_of(e.code(), m) == ErrorView::Other(m),
{
    lemma_reveal_codes();
}

} // verus!
