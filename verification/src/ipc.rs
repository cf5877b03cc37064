//! The command envelope shared by every IPC handler, and caller identity.
use vstd::prelude::*;

use crate::text::{copy_string, str_eq};

verus! {

#[derive(Clone, Copy, Debug, PartialEq, Eq, Structural)]
pub enum ErrorCode {
    AcknowledgementRequired,
    AlreadyOpen,
    AssetsInvalid,
    BlankObservation,
    CancelUnsafe,
    CandidateStale,
    ConsentRequired,
    DeckIncomplete,
    DisclosureRestricted,
    DestinationUnwritable,
    ExplicitCorrectionRequired,
    FormatUnsupported,
    IdentityConflict,
    InternalError,
    InputTooLong,
    InteractiveRequired,
    InvalidBackup,
    InvalidCard,
    InvalidCursor,
    InvalidHandle,
    InvalidTransition,
    InvalidRequest,
    JobBusy,
    KeyUnavailable,
    MergeConflict,
    MigrationFailed,
    NoActiveEncounter,
    NotebookInvalid,
    NotFound,
    OperationBusy,
    OcrLanguageMissing,
    OverlayUnavailable,
    ProviderInvalidResponse,
    ProviderUnavailable,
    RedactionFailed,
    RevisionConflict,
    SaveFailed,
    ScopeMismatch,
    SignatureInvalid,
    StaleProviderResult,
    UndoExpired,
    UnauthorizedCaller,
    UnsafeSource,
    UpdateUnavailable,
    WindowNotFound,
    WrongPassphrase,
}

#[derive(Debug, PartialEq, Eq)]
pub struct AppError {
    pub code: ErrorCode,
    pub message: String,
    pub retryable: bool,
    pub field: Option<String>,
}

impl Clone for AppError {
    fn clone(&self) -> (r: Self)
        ensures
            r == *self,
    {
        AppError {
            code: self.code,
            message: self.message.clone(),
            retryable: self.retryable,
            field: match &self.field {
                Some(f) => Some(f.clone()),
                None => None,
            },
        }
    }
}

impl AppError {
    pub fn new(code: ErrorCode, message: String, retryable: bool) -> (r: Self)
        ensures
            r.code == code,
            r.message == message,
            r.retryable == retryable,
            r.field is None,
    {
        AppError { code, message, retryable, field: None }
    }

    /// Names the request field that the error is about.
    pub fn with_field(self, field: String) -> (r: Self)
        ensures
            r == (AppError { field: Some(field), ..self }),
    {
        AppError { field: Some(field), ..self }
    }

    /// An unexpected failure, reported only by its correlation code.
    pub fn internal(correlation_code: &str) -> (r: Self)
        ensures
            r.code == ErrorCode::InternalError,
            r.message@ == "An internal error occurred. Reference: "@ + correlation_code@,
            !r.retryable,
            r.field is None,
    {
        let mut message = copy_string("An internal error occurred. Reference: ");
        message.append(correlation_code);
        AppError::new(ErrorCode::InternalError, message, false)
    }
}

/// A command's reply: data with the revision it was read at, or an error.
#[derive(Debug, PartialEq, Eq)]
pub enum CommandResult<T> {
    Success { ok: bool, data: T, revision: u64 },
    Failure { ok: bool, error: AppError },
}

impl<T> CommandResult<T> {
    pub fn success(data: T, revision: u64) -> (r: Self)
        ensures
            r == (CommandResult::Success { ok: true, data, revision }),
    {
        CommandResult::Success { ok: true, data, revision }
    }

    pub fn failure(error: AppError) -> (r: Self)
        ensures
            r == (CommandResult::<T>::Failure { ok: false, error }),
    {
        CommandResult::Failure { ok: false, error }
    }

    pub fn is_success(&self) -> (r: bool)
        ensures
            r == (*self is Success),
    {
        matches!(self, CommandResult::Success { .. })
    }

    pub fn revision(&self) -> (r: Option<u64>)
        ensures
            match *self {
                CommandResult::Success { revision, .. } => r == Some(revision),
                CommandResult::Failure { .. } => r is None,
            },
    {
        match self {
            CommandResult::Success { revision, .. } => Some(*revision),
            CommandResult::Failure { .. } => None,
        }
    }
}

/// The window a command came from.
#[derive(Clone, Copy, Debug, PartialEq, Eq, Structural)]
pub enum CallerIdentity {
    Main,
    Overlay,
    Capture,
}

/// The refusal of a caller that may not run a command.
pub open spec fn is_unauthorized(e: AppError) -> bool {
    &&& e.code == ErrorCode::UnauthorizedCaller
    &&& e.message@ == "This window may not run that command."@
    &&& !e.retryable
    &&& e.field is None
}

pub fn unauthorized_caller() -> (e: AppError)
    ensures
        is_unauthorized(e),
{
    AppError::new(
        ErrorCode::UnauthorizedCaller,
        copy_string("This window may not run that command."),
        false,
    )
}

impl CallerIdentity {
    /// The caller behind a window label: `main`, `overlay` or `capture`.
    pub fn from_window_label(label: &str) -> (r: Result<CallerIdentity, AppError>)
        ensures
            label@ == "main"@ ==> r == Ok::<CallerIdentity, AppError>(CallerIdentity::Main),
            label@ == "overlay"@ ==> r == Ok::<CallerIdentity, AppError>(CallerIdentity::Overlay),
            label@ == "capture"@ ==> r == Ok::<CallerIdentity, AppError>(CallerIdentity::Capture),
            label@ != "main"@ && label@ != "overlay"@ && label@ != "capture"@ ==> (r matches Err(
                e,
            ) && is_unauthorized(e)),
    {
        proof {
            reveal_strlit("main");
            reveal_strlit("overlay");
            reveal_strlit("capture");
            assert("main"@.len() == 4 && "overlay"@.len() == 7 && "capture"@.len() == 7);
            assert("overlay"@[0] != "capture"@[0]);
        }
        if str_eq(label, "main") {
            Ok(CallerIdentity::Main)
        } else if str_eq(label, "overlay") {
            Ok(CallerIdentity::Overlay)
        } else if str_eq(label, "capture") {
            Ok(CallerIdentity::Capture)
        } else {
            Err(unauthorized_caller())
        }
    }

    /// Admits the caller only when it is one of `allowed`.
    pub fn require(&self, allowed: &[CallerIdentity]) -> (r: Result<(), AppError>)
        ensures
            allowed@.contains(*self) ==> r is Ok,
            !allowed@.contains(*self) ==> (r matches Err(e) && is_unauthorized(e)),
    {
        let mut i: usize = 0;
        while i < allowed.len()
            invariant
                i <= allowed@.len(),
                forall|j: int| 0 <= j < i ==> allowed@[j] != *self,
            decreases allowed.len() - i,
        {
            if allowed[i] == *self {
                proof {
                    assert(allowed@[i as int] == *self);
                }
                return Ok(());
            }
            i = i + 1;
        }
        Err(unauthorized_caller())
    }
}

} // verus!
