//! The closed set of failures that the host reports, their conversions from
//! lower-level failures, and their two renderings.

use vstd::prelude::*;
use vstd::string::to_string_from_display_ensures;
use crate::text::string_view;

verus! {

/// A lookup in the DNA that found nothing.
#[derive(Clone, Debug, PartialEq, Eq, Hash)]
pub enum DnaError {
    ZomeNotFound(String),
    CapabilityNotFound(String),
    ZomeFunctionNotFound(String),
}

/// Every failure that the host can report.
#[derive(Clone, Debug, PartialEq, Eq, Hash)]
pub enum HolochainError {
    ErrorGeneric(String),
    InstanceNotActive,
    InstanceActive,
    NotImplemented,
    LoggingError,
    DnaMissing,
    DnaError(DnaError),
    IoError(String),
    SerializationError(String),
    InvalidOperationOnSysEntry,
    DoesNotHaveCapabilityToken,
}

/// The mathematical value of a [`DnaError`].
pub enum DnaErrorModel {
    ZomeNotFound(Seq<char>),
    CapabilityNotFound(Seq<char>),
    ZomeFunctionNotFound(Seq<char>),
}

/// The mathematical value of a [`HolochainError`].
pub enum ErrorModel {
    ErrorGeneric(Seq<char>),
    InstanceNotActive,
    InstanceActive,
    NotImplemented,
    LoggingError,
    DnaMissing,
    DnaError(DnaErrorModel),
    IoError(Seq<char>),
    SerializationError(Seq<char>),
    InvalidOperationOnSysEntry,
    DoesNotHaveCapabilityToken,
}

impl View for DnaError {
    type V = DnaErrorModel;

    open spec fn view(&self) -> DnaErrorModel {
        match self {
            DnaError::ZomeNotFound(m) => DnaErrorModel::ZomeNotFound(m@),
            DnaError::CapabilityNotFound(m) => DnaErrorModel::CapabilityNotFound(m@),
            DnaError::ZomeFunctionNotFound(m) => DnaErrorModel::ZomeFunctionNotFound(m@),
        }
    }
}

impl View for HolochainError {
    type V = ErrorModel;

    open spec fn view(&self) -> ErrorModel {
        match self {
            HolochainError::ErrorGeneric(m) => ErrorModel::ErrorGeneric(m@),
            HolochainError::InstanceNotActive => ErrorModel::InstanceNotActive,
            HolochainError::InstanceActive => ErrorModel::InstanceActive,
            HolochainError::NotImplemented => ErrorModel::NotImplemented,
            HolochainError::LoggingError => ErrorModel::LoggingError,
            HolochainError::DnaMissing => ErrorModel::DnaMissing,
            HolochainError::DnaError(e) => ErrorModel::DnaError(e@),
            HolochainError::IoError(m) => ErrorModel::IoError(m@),
            HolochainError::SerializationError(m) => ErrorModel::SerializationError(m@),
            HolochainError::InvalidOperationOnSysEntry => ErrorModel::InvalidOperationOnSysEntry,
            HolochainError::DoesNotHaveCapabilityToken => ErrorModel::DoesNotHaveCapabilityToken,
        }
    }
}

// ---------------------------------------------------------------------------
// Descriptions and renderings
// ---------------------------------------------------------------------------

impl DnaErrorModel {
    /// The message that the error carries.
    pub open spec fn description(self) -> Seq<char> {
        match self {
            DnaErrorModel::ZomeNotFound(m) => m,
            DnaErrorModel::CapabilityNotFound(m) => m,
            DnaErrorModel::ZomeFunctionNotFound(m) => m,
        }
    }

    /// The structural rendering: the variant's name around its quoted message.
    pub open spec fn rendering(self) -> Seq<char> {
        match self {
            DnaErrorModel::ZomeNotFound(m) => "ZomeNotFound("@ + quoted(m) + ")"@,
            DnaErrorModel::CapabilityNotFound(m) => "CapabilityNotFound("@ + quoted(m) + ")"@,
            DnaErrorModel::ZomeFunctionNotFound(m) => "ZomeFunctionNotFound("@ + quoted(m) + ")"@,
        }
    }
}

impl ErrorModel {
    /// The message that the error carries, or the fixed text of its kind.
    pub open spec fn description(self) -> Seq<char> {
        match self {
            ErrorModel::ErrorGeneric(m) => m,
            ErrorModel::NotImplemented => "not implemented"@,
            ErrorModel::InstanceNotActive => "the instance is not active"@,
            ErrorModel::InstanceActive => "the instance is active"@,
            ErrorModel::LoggingError => "logging failed"@,
            ErrorModel::DnaMissing => "DNA is missing"@,
            ErrorModel::DnaError(e) => e.description(),
            ErrorModel::IoError(m) => m,
            ErrorModel::SerializationError(m) => m,
            ErrorModel::InvalidOperationOnSysEntry => "operation cannot be done on a system entry type"@,
            ErrorModel::DoesNotHaveCapabilityToken => "Caller does not have Capability to make that call"@,
        }
    }

    /// The structural rendering: the variant's name, around what it holds.
    pub open spec fn rendering(self) -> Seq<char> {
        match self {
            ErrorModel::ErrorGeneric(m) => "ErrorGeneric("@ + quoted(m) + ")"@,
            ErrorModel::InstanceNotActive => "InstanceNotActive"@,
            ErrorModel::InstanceActive => "InstanceActive"@,
            ErrorModel::NotImplemented => "NotImplemented"@,
            ErrorModel::LoggingError => "LoggingError"@,
            ErrorModel::DnaMissing => "DnaMissing"@,
            ErrorModel::DnaError(e) => "DnaError("@ + e.rendering() + ")"@,
            ErrorModel::IoError(m) => "IoError("@ + quoted(m) + ")"@,
            ErrorModel::SerializationError(m) => "SerializationError("@ + quoted(m) + ")"@,
            ErrorModel::InvalidOperationOnSysEntry => "InvalidOperationOnSysEntry"@,
            ErrorModel::DoesNotHaveCapabilityToken => "DoesNotHaveCapabilityToken"@,
        }
    }

    /// The JSON rendering: an object whose one member, `error`, holds the
    /// description as it stands.
    pub open spec fn json(self) -> Seq<char> {
        "{\"error\":\""@ + self.description() + "\"}"@
    }
}

/// The text that the standard library's debug formatting gives for the string
/// `text`: the string in double quotes, with its escapes.
pub uninterp spec fn quoted(text: Seq<char>) -> Seq<char>;

/// Calls `<str as core::fmt::Debug>::fmt`, the standard library's debug
/// formatting of a string, through `format!`.  Trusted: the result is a
/// function of the text alone, which the contract names [`quoted`].
#[verifier::external_body]
fn debug_quoted(text: &str) -> (r: String)
    ensures
        r@ == quoted(text@),
{
    format!("{:?}", text)
}

/// `head`, then the quoted `message`, then a closing parenthesis.
fn render_variant(head: &str, message: &str) -> (r: String)
    ensures
        r@ == head@ + quoted(message@) + ")"@,
{
    let q = debug_quoted(message);
    String::from_str(head).concat(q.as_str()).concat(")")
}

impl DnaError {
    /// The message that the error carries.
    pub fn description(&self) -> (r: &str)
        ensures
            r@ == self@.description(),
    {
        match self {
            DnaError::ZomeNotFound(m) => m.as_str(),
            DnaError::CapabilityNotFound(m) => m.as_str(),
            DnaError::ZomeFunctionNotFound(m) => m.as_str(),
        }
    }

    /// The structural rendering of the error.
    pub fn to_string(&self) -> (r: String)
        ensures
            r@ == self@.rendering(),
    {
        match self {
            DnaError::ZomeNotFound(m) => render_variant("ZomeNotFound(", m.as_str()),
            DnaError::CapabilityNotFound(m) => render_variant("CapabilityNotFound(", m.as_str()),
            DnaError::ZomeFunctionNotFound(m) => render_variant(
                "ZomeFunctionNotFound(",
                m.as_str(),
            ),
        }
    }
}

impl HolochainError {
    /// A generic error with the given message.
    pub fn new(msg: &str) -> (r: HolochainError)
        ensures
            r@ == ErrorModel::ErrorGeneric(msg@),
    {
        HolochainError::ErrorGeneric(String::from_str(msg))
    }

    /// The message that the error carries, or the fixed text of its kind.
    pub fn description(&self) -> (r: &str)
        ensures
            r@ == self@.description(),
    {
        match self {
            HolochainError::ErrorGeneric(m) => m.as_str(),
            HolochainError::NotImplemented => "not implemented",
            HolochainError::InstanceNotActive => "the instance is not active",
            HolochainError::InstanceActive => "the instance is active",
            HolochainError::LoggingError => "logging failed",
            HolochainError::DnaMissing => "DNA is missing",
            HolochainError::DnaError(e) => e.description(),
            HolochainError::IoError(m) => m.as_str(),
            HolochainError::SerializationError(m) => m.as_str(),
            HolochainError::InvalidOperationOnSysEntry => "operation cannot be done on a system entry type",
            HolochainError::DoesNotHaveCapabilityToken => "Caller does not have Capability to make that call",
        }
    }

    /// The JSON rendering of the error.  The description is not escaped.
    pub fn to_json(&self) -> (r: Result<String, HolochainError>)
        ensures
            r is Ok,
            r.unwrap()@ == self@.json(),
    {
        Ok(String::from_str("{\"error\":\"").concat(self.description()).concat("\"}"))
    }

    /// The structural rendering of the error, which also serves as its
    /// display text.
    pub fn to_string(&self) -> (r: String)
        ensures
            r@ == self@.rendering(),
    {
        match self {
            HolochainError::ErrorGeneric(m) => render_variant("ErrorGeneric(", m.as_str()),
            HolochainError::InstanceNotActive => String::from_str("InstanceNotActive"),
            HolochainError::InstanceActive => String::from_str("InstanceActive"),
            HolochainError::NotImplemented => String::from_str("NotImplemented"),
            HolochainError::LoggingError => String::from_str("LoggingError"),
            HolochainError::DnaMissing => String::from_str("DnaMissing"),
            HolochainError::DnaError(e) => {
                let inner = e.to_string();
                String::from_str("DnaError(").concat(inner.as_str()).concat(")")
            },
            HolochainError::IoError(m) => render_variant("IoError(", m.as_str()),
            HolochainError::SerializationError(m) => render_variant(
                "SerializationError(",
                m.as_str(),
            ),
            HolochainError::InvalidOperationOnSysEntry => String::from_str(
                "InvalidOperationOnSysEntry",
            ),
            HolochainError::DoesNotHaveCapabilityToken => String::from_str(
                "DoesNotHaveCapabilityToken",
            ),
        }
    }
}

// ---------------------------------------------------------------------------
// Conversions from lower-level failures
// ---------------------------------------------------------------------------

/// The standard library's I/O error, carried as an opaque value.
#[verifier::external_type_specification]
#[verifier::external_body]
pub struct IoErrorDecl(std::io::Error);

/// How an I/O failure is classified before it is described.
#[derive(Clone, Copy, Debug, PartialEq, Eq)]
pub enum IoFailure {
    InvalidData,
    PermissionDenied,
    Other,
}

/// The description of an I/O failure of the given class, whose own text is
/// `detail`.
pub open spec fn io_reason(class: IoFailure, detail: Seq<char>) -> Seq<char> {
    match class {
        IoFailure::InvalidData => "contains invalid data: "@ + detail,
        IoFailure::PermissionDenied => "missing permissions to read: "@ + detail,
        IoFailure::Other => "unexpected error: "@ + detail,
    }
}

/// Describes an I/O failure of the given class, whose own text is `detail`.
pub fn describe_io_failure(class: IoFailure, detail: &str) -> (r: String)
    ensures
        r@ == io_reason(class, detail@),
{
    match class {
        IoFailure::InvalidData => String::from_str("contains invalid data: ").concat(detail),
        IoFailure::PermissionDenied => String::from_str("missing permissions to read: ").concat(
            detail,
        ),
        IoFailure::Other => String::from_str("unexpected error: ").concat(detail),
    }
}

/// Calls `std::io::Error::kind` and tells the two kinds apart that get a
/// description of their own.  Trusted; nothing is claimed of the class.
#[verifier::external_body]
fn io_error_class(error: &std::io::Error) -> (class: IoFailure) {
    match error.kind() {
        std::io::ErrorKind::InvalidData => IoFailure::InvalidData,
        std::io::ErrorKind::PermissionDenied => IoFailure::PermissionDenied,
        _ => IoFailure::Other,
    }
}

/// `detail` is the text that the I/O error shows of itself.
pub open spec fn is_io_text(error: &std::io::Error, detail: String) -> bool {
    to_string_from_display_ensures::<std::io::Error>(error, detail)
}

/// `detail` is the text that the serializer's error shows of itself.
pub open spec fn is_serde_text(error: &serde_json::Error, detail: String) -> bool {
    to_string_from_display_ensures::<serde_json::Error>(error, detail)
}

/// Describes an I/O error: the description of its class, around the text
/// that the error shows of itself.
pub fn reason_for_io_error(error: &std::io::Error) -> (r: String)
    ensures
        exists|class: IoFailure, detail: String|
            is_io_text(error, detail) && r@ == #[trigger] io_reason(class, detail@),
{
    let class = io_error_class(error);
    let detail = error.to_string();
    let r = describe_io_failure(class, detail.as_str());
    assert(is_io_text(error, detail) && r@ == io_reason(class, detail@));
    r
}

/// The text of an I/O failure met at `path`, described by `reason`.
pub open spec fn walk_reason(path: Seq<char>, reason: Seq<char>) -> Seq<char> {
    "error at path: "@ + path + ", reason: "@ + reason
}

/// The text of an optional string, empty where there is none.
pub open spec fn text_or_empty(text: Option<String>) -> Seq<char> {
    match text {
        Some(t) => t@,
        None => Seq::empty(),
    }
}

/// The error for a failed directory traversal: the offending path, where one
/// is known, and the description of the I/O failure beneath, where there is
/// one.
pub fn walk_failure(path: Option<String>, reason: Option<String>) -> (r: HolochainError)
    ensures
        r@ == ErrorModel::IoError(walk_reason(text_or_empty(path), text_or_empty(reason))),
{
    let path_text = match path {
        Some(p) => p,
        None => String::new(),
    };
    let reason_text = match reason {
        Some(t) => t,
        None => String::new(),
    };
    HolochainError::IoError(
        String::from_str("error at path: ").concat(path_text.as_str()).concat(", reason: ").concat(
            reason_text.as_str(),
        ),
    )
}

/// The error of the `walkdir` crate, carried as an opaque value.
#[verifier::external_type_specification]
#[verifier::external_body]
pub struct WalkdirErrorDecl(walkdir::Error);

/// The error of the `serde_json` crate, carried as an opaque value.
#[verifier::external_type_specification]
#[verifier::external_body]
pub struct SerdeErrorDecl(serde_json::Error);

/// The cancellation notice of a `futures` one-shot channel, carried as an
/// opaque value.
#[verifier::external_type_specification]
#[verifier::external_body]
pub struct CanceledDecl(futures::channel::oneshot::Canceled);

/// The actor-creation failure of the `riker` crate, carried as an opaque
/// value.
#[verifier::external_type_specification]
#[verifier::external_body]
pub struct CreateErrorDecl(riker::actor::CreateError);

/// `walkdir::Error::io_error`: nothing is claimed of what it finds.
pub assume_specification[ walkdir::Error::io_error ](error: &walkdir::Error) -> (r: Option<
    &std::io::Error,
>);

/// The path at which the traversal failed, as the text that the path shows
/// of itself; `None` where the error names no path.
pub uninterp spec fn walk_path(error: walkdir::Error) -> Option<Seq<char>>;

/// The text of an optional path, empty where there is none.
pub open spec fn path_text(path: Option<Seq<char>>) -> Seq<char> {
    match path {
        Some(text) => text,
        None => Seq::empty(),
    }
}

/// The reason is none at all, or the description of some I/O failure.
pub open spec fn is_walk_reason(reason: Seq<char>) -> bool {
    reason.len() == 0 || exists|class: IoFailure, detail: Seq<char>|
        reason == #[trigger] io_reason(class, detail)
}

/// Calls `walkdir::Error::path` and turns the path, where there is one, into
/// the text that `std::path::Path::display` shows.  Trusted: the answer
/// depends on the error alone, and the contract names it [`walk_path`].
#[verifier::external_body]
fn walkdir_error_path(error: &walkdir::Error) -> (r: Option<String>)
    ensures
        string_view(r) == walk_path(*error),
{
    error.path().map(|p| p.display().to_string())
}

impl From<walkdir::Error> for HolochainError {
    /// An I/O error that names the path at which the traversal failed and
    /// the reason beneath.
    fn from(error: walkdir::Error) -> (r: HolochainError)
        ensures
            exists|reason: Seq<char>|
                is_walk_reason(reason) && r@ == ErrorModel::IoError(
                    #[trigger] walk_reason(path_text(walk_path(error)), reason),
                ),
    {
        let path = walkdir_error_path(&error);
        let reason = match error.io_error() {
            Some(inner) => {
                let told = reason_for_io_error(inner);
                proof {
                    let (class, detail) = choose|class: IoFailure, detail: String|
                        is_io_text(inner, detail) && told@ == #[trigger] io_reason(class, detail@);
                    assert(told@ == io_reason(class, detail@));
                    assert(is_walk_reason(told@));
                }
                Some(told)
            },
            None => None,
        };
        let r = walk_failure(path, reason);
        proof {
            assert(text_or_empty(path) == path_text(walk_path(error)));
            assert(is_walk_reason(text_or_empty(reason)));
            assert(r@ == ErrorModel::IoError(
                walk_reason(path_text(walk_path(error)), text_or_empty(reason)),
            ));
        }
        r
    }
}

impl vstd::std_specs::convert::FromSpecImpl<walkdir::Error> for HolochainError {
    open spec fn obeys_from_spec() -> bool {
        false
    }

    open spec fn from_spec(v: walkdir::Error) -> HolochainError {
        arbitrary()
    }
}

impl From<std::io::Error> for HolochainError {
    /// An I/O error that holds the description of the failure.
    fn from(error: std::io::Error) -> (r: HolochainError)
        ensures
            exists|class: IoFailure, detail: String|
                is_io_text(&error, detail) && r@ == ErrorModel::IoError(
                    #[trigger] io_reason(class, detail@),
                ),
    {
        let reason = reason_for_io_error(&error);
        HolochainError::IoError(reason)
    }
}

impl vstd::std_specs::convert::FromSpecImpl<std::io::Error> for HolochainError {
    open spec fn obeys_from_spec() -> bool {
        false
    }

    open spec fn from_spec(v: std::io::Error) -> HolochainError {
        arbitrary()
    }
}

impl From<serde_json::Error> for HolochainError {
    /// A serialization error whose message is the text that the failure
    /// shows of itself.
    fn from(error: serde_json::Error) -> (r: HolochainError)
        ensures
            exists|detail: String|
                #[trigger] is_serde_text(&error, detail) && r@ == ErrorModel::SerializationError(
                    detail@,
                ),
    {
        let detail = error.to_string();
        assert(is_serde_text(&error, detail));
        HolochainError::SerializationError(detail)
    }
}

impl vstd::std_specs::convert::FromSpecImpl<serde_json::Error> for HolochainError {
    open spec fn obeys_from_spec() -> bool {
        false
    }

    open spec fn from_spec(v: serde_json::Error) -> HolochainError {
        arbitrary()
    }
}

impl From<futures::channel::oneshot::Canceled> for HolochainError {
    /// A generic error; the notice holds nothing to keep.
    fn from(canceled: futures::channel::oneshot::Canceled) -> (r: HolochainError)
        ensures
            r@ == ErrorModel::ErrorGeneric("Failed future"@),
    {
        HolochainError::ErrorGeneric(String::from_str("Failed future"))
    }
}

impl vstd::std_specs::convert::FromSpecImpl<futures::channel::oneshot::Canceled> for HolochainError {
    open spec fn obeys_from_spec() -> bool {
        false
    }

    open spec fn from_spec(v: futures::channel::oneshot::Canceled) -> HolochainError {
        arbitrary()
    }
}

impl From<riker::actor::CreateError> for HolochainError {
    /// A generic error; the cause is not kept.
    fn from(cause: riker::actor::CreateError) -> (r: HolochainError)
        ensures
            r@ == ErrorModel::ErrorGeneric("Failed to create actor in system"@),
    {
        HolochainError::ErrorGeneric(String::from_str("Failed to create actor in system"))
    }
}

impl vstd::std_specs::convert::FromSpecImpl<riker::actor::CreateError> for HolochainError {
    open spec fn obeys_from_spec() -> bool {
        false
    }

    open spec fn from_spec(v: riker::actor::CreateError) -> HolochainError {
        arbitrary()
    }
}

} // verus!
