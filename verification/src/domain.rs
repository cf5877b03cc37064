//! Identifiers, clocks, revisions, phases and errors shared by every module.
use vstd::prelude::*;

use crate::entropy::{now_millis, random_bytes};
use crate::ipc::{AppError, ErrorCode};
use crate::text::{chars_of, push_char};

verus! {

/// Failures shared by the notebook, portability and provider layers.
#[derive(Clone, Copy, Debug, PartialEq, Eq, Structural)]
pub enum RepoError {
    AcknowledgementRequired,
    AssetsInvalid,
    CancelUnsafe,
    ConsentRequired,
    DeckIncomplete,
    DestinationUnwritable,
    EmptyPortabilityConfirmationRequired,
    FormatUnsupported,
    IdentityConflict,
    InvalidBackup,
    InvalidRequest,
    InvalidTransition,
    KeyUnavailable,
    MergeConflict,
    MigrationFailed,
    NotebookInvalid,
    NotFound,
    OperationBusy,
    ProviderInvalidResponse,
    ProviderUnavailable,
    RevisionConflict,
    StaleProviderResult,
    UndoExpired,
    UnsafeSource,
    WindowNotFound,
    WrongPassphrase,
}

/// The IPC error code that reports a repository error.
pub open spec fn repo_error_code(e: RepoError) -> ErrorCode {
    match e {
        RepoError::AcknowledgementRequired => ErrorCode::AcknowledgementRequired,
        RepoError::AssetsInvalid => ErrorCode::AssetsInvalid,
        RepoError::CancelUnsafe => ErrorCode::CancelUnsafe,
        RepoError::ConsentRequired => ErrorCode::ConsentRequired,
        RepoError::DeckIncomplete => ErrorCode::DeckIncomplete,
        RepoError::DestinationUnwritable => ErrorCode::DestinationUnwritable,
        RepoError::EmptyPortabilityConfirmationRequired => ErrorCode::AcknowledgementRequired,
        RepoError::FormatUnsupported => ErrorCode::FormatUnsupported,
        RepoError::IdentityConflict => ErrorCode::IdentityConflict,
        RepoError::InvalidBackup => ErrorCode::InvalidBackup,
        RepoError::InvalidRequest => ErrorCode::InvalidRequest,
        RepoError::InvalidTransition => ErrorCode::InvalidTransition,
        RepoError::KeyUnavailable => ErrorCode::KeyUnavailable,
        RepoError::MergeConflict => ErrorCode::MergeConflict,
        RepoError::MigrationFailed => ErrorCode::MigrationFailed,
        RepoError::NotebookInvalid => ErrorCode::NotebookInvalid,
        RepoError::NotFound => ErrorCode::NotFound,
        RepoError::OperationBusy => ErrorCode::OperationBusy,
        RepoError::ProviderInvalidResponse => ErrorCode::ProviderInvalidResponse,
        RepoError::ProviderUnavailable => ErrorCode::ProviderUnavailable,
        RepoError::RevisionConflict => ErrorCode::RevisionConflict,
        RepoError::StaleProviderResult => ErrorCode::StaleProviderResult,
        RepoError::UndoExpired => ErrorCode::UndoExpired,
        RepoError::UnsafeSource => ErrorCode::UnsafeSource,
        RepoError::WindowNotFound => ErrorCode::WindowNotFound,
        RepoError::WrongPassphrase => ErrorCode::WrongPassphrase,
    }
}

/// Busy and unavailable conditions may succeed when tried again.
pub open spec fn repo_error_retryable(e: RepoError) -> bool {
    e == RepoError::OperationBusy || e == RepoError::ProviderUnavailable
}

/// `a` is the IPC error that reports `e`.
pub open spec fn reports_repo_error(e: RepoError, a: AppError) -> bool {
    &&& a.code == repo_error_code(e)
    &&& a.message@ == "The request could not be completed."@
    &&& a.retryable == repo_error_retryable(e)
    &&& a.field is None
}

impl RepoError {
    /// The IPC error that reports this error to the renderer.
    pub fn to_app_error(self) -> (r: AppError)
        ensures
            reports_repo_error(self, r),
    {
        let code = match self {
            RepoError::AcknowledgementRequired => ErrorCode::AcknowledgementRequired,
            RepoError::AssetsInvalid => ErrorCode::AssetsInvalid,
            RepoError::CancelUnsafe => ErrorCode::CancelUnsafe,
            RepoError::ConsentRequired => ErrorCode::ConsentRequired,
            RepoError::DeckIncomplete => ErrorCode::DeckIncomplete,
            RepoError::DestinationUnwritable => ErrorCode::DestinationUnwritable,
            RepoError::EmptyPortabilityConfirmationRequired => ErrorCode::AcknowledgementRequired,
            RepoError::FormatUnsupported => ErrorCode::FormatUnsupported,
            RepoError::IdentityConflict => ErrorCode::IdentityConflict,
            RepoError::InvalidBackup => ErrorCode::InvalidBackup,
            RepoError::InvalidRequest => ErrorCode::InvalidRequest,
            RepoError::InvalidTransition => ErrorCode::InvalidTransition,
            RepoError::KeyUnavailable => ErrorCode::KeyUnavailable,
            RepoError::MergeConflict => ErrorCode::MergeConflict,
            RepoError::MigrationFailed => ErrorCode::MigrationFailed,
            RepoError::NotebookInvalid => ErrorCode::NotebookInvalid,
            RepoError::NotFound => ErrorCode::NotFound,
            RepoError::OperationBusy => ErrorCode::OperationBusy,
            RepoError::ProviderInvalidResponse => ErrorCode::ProviderInvalidResponse,
            RepoError::ProviderUnavailable => ErrorCode::ProviderUnavailable,
            RepoError::RevisionConflict => ErrorCode::RevisionConflict,
            RepoError::StaleProviderResult => ErrorCode::StaleProviderResult,
            RepoError::UndoExpired => ErrorCode::UndoExpired,
            RepoError::UnsafeSource => ErrorCode::UnsafeSource,
            RepoError::WindowNotFound => ErrorCode::WindowNotFound,
            RepoError::WrongPassphrase => ErrorCode::WrongPassphrase,
        };
        let retryable = matches!(self, RepoError::OperationBusy | RepoError::ProviderUnavailable);
        AppError::new(code, crate::text::copy_string("The request could not be completed."), retryable)
    }

    /// Errors after which an automatic provider retry is worthwhile.
    pub open spec fn spec_retryable_provider_error(self) -> bool {
        self == RepoError::ProviderUnavailable
    }

    pub fn retryable_provider_error(self) -> (retryable: bool)
        ensures
            retryable == self.spec_retryable_provider_error(),
    {
        matches!(self, RepoError::ProviderUnavailable)
    }
}

/// Milliseconds since the Unix epoch; never negative.
#[derive(Clone, Copy, Debug, PartialEq, Eq, Structural)]
pub struct UtcMillis(pub i64);

impl UtcMillis {
    pub fn new(value: i64) -> (r: Result<UtcMillis, RepoError>)
        ensures
            value >= 0 ==> r == Ok::<UtcMillis, RepoError>(UtcMillis(value)),
            value < 0 ==> r == Err::<UtcMillis, RepoError>(RepoError::InvalidRequest),
    {
        if value < 0 {
            Err(RepoError::InvalidRequest)
        } else {
            Ok(UtcMillis(value))
        }
    }

    /// The current wall-clock time.
    pub fn now() -> (r: UtcMillis)
        ensures
            r.0 >= 0,
    {
        UtcMillis(now_millis())
    }

    pub fn get(&self) -> (r: i64)
        ensures
            r == self.0,
    {
        self.0
    }
}

/// An optimistic-concurrency revision counter, starting at 1.
#[derive(Clone, Copy, Debug, PartialEq, Eq, Structural)]
pub struct Revision(pub u64);

impl Revision {
    /// A revision a client names; revisions start at 1.
    pub fn new(value: u64) -> (r: Result<Revision, RepoError>)
        ensures
            value >= 1 ==> r == Ok::<Revision, RepoError>(Revision(value)),
            value == 0 ==> r == Err::<Revision, RepoError>(RepoError::InvalidRequest),
    {
        if value == 0 {
            Err(RepoError::InvalidRequest)
        } else {
            Ok(Revision(value))
        }
    }

    /// The first revision of a record.
    pub fn initial() -> (r: Revision)
        ensures
            r.0 == 1,
    {
        Revision(1)
    }

    pub fn next(&self) -> (r: Result<Revision, RepoError>)
        ensures
            self.0 < u64::MAX ==> r == Ok::<Revision, RepoError>(Revision((self.0 + 1) as u64)),
            self.0 == u64::MAX ==> r == Err::<Revision, RepoError>(RepoError::InvalidRequest),
    {
        if self.0 == u64::MAX {
            Err(RepoError::InvalidRequest)
        } else {
            Ok(Revision(self.0 + 1))
        }
    }

    pub fn get(&self) -> (r: u64)
        ensures
            r == self.0,
    {
        self.0
    }
}

pub open spec fn hex_char(n: u8) -> char {
    if n < 10 {
        ((n + 48) as u8) as char
    } else {
        ((n + 87) as u8) as char
    }
}

/// Lower-case hexadecimal rendering of bytes, two digits per byte.
pub open spec fn hex_of(bytes: Seq<u8>) -> Seq<char>
    decreases bytes.len(),
{
    if bytes.len() == 0 {
        Seq::empty()
    } else {
        hex_of(bytes.drop_last()).push(hex_char(bytes.last() / 16)).push(
            hex_char(bytes.last() % 16),
        )
    }
}

pub proof fn lemma_hex_len(bytes: Seq<u8>)
    ensures
        hex_of(bytes).len() == 2 * bytes.len(),
    decreases bytes.len(),
{
    if bytes.len() > 0 {
        lemma_hex_len(bytes.drop_last());
    }
}

pub fn hex_digit(n: u8) -> (c: char)
    requires
        n < 16,
    ensures
        c == hex_char(n),
{
    if n < 10 {
        (n + 48) as char
    } else {
        (n + 87) as char
    }
}

/// `{byte:02x}` for each byte, concatenated.
pub fn hex_encode(bytes: &[u8]) -> (s: String)
    ensures
        s@ == hex_of(bytes@),
{
    let mut s = String::new();
    let mut i: usize = 0;
    while i < bytes.len()
        invariant
            i <= bytes.len(),
            s@ == hex_of(bytes@.subrange(0, i as int)),
        decreases bytes.len() - i,
    {
        let b = bytes[i];
        push_char(&mut s, hex_digit(b / 16));
        push_char(&mut s, hex_digit(b % 16));
        proof {
            let next = bytes@.subrange(0, i + 1);
            assert(next.drop_last() =~= bytes@.subrange(0, i as int));
            assert(next.last() == b);
        }
        i = i + 1;
    }
    assert(bytes@.subrange(0, bytes@.len() as int) =~= bytes@);
    s
}

pub open spec fn is_id_char(c: char) -> bool {
    ('0' <= c && c <= '9') || ('a' <= c && c <= 'z') || ('A' <= c && c <= 'Z') || c == '-'
        || c == '_'
}

/// What a stable identifier may be: 1 to 128 ASCII letters, digits, `-` or `_`.
pub open spec fn valid_id(s: Seq<char>) -> bool {
    &&& 0 < s.len() <= 128
    &&& forall|i: int| 0 <= i < s.len() ==> is_id_char(#[trigger] s[i])
}

pub fn check_id(value: &str) -> (r: bool)
    ensures
        r == valid_id(value@),
{
    let v = chars_of(value);
    if v.len() == 0 || v.len() > 128 {
        return false;
    }
    let mut i: usize = 0;
    while i < v.len()
        invariant
            i <= v.len(),
            v@ == value@,
            forall|j: int| 0 <= j < i ==> is_id_char(#[trigger] v@[j]),
        decreases v.len() - i,
    {
        let c = v[i];
        if !(('0' <= c && c <= '9') || ('a' <= c && c <= 'z') || ('A' <= c && c <= 'Z') || c
            == '-' || c == '_') {
            return false;
        }
        i = i + 1;
    }
    true
}

/// 128 random bits rendered as 32 lower-case hexadecimal digits.
pub fn random_id() -> (r: Result<String, RepoError>)
    ensures
        r matches Ok(s) ==> s@.len() == 32 && valid_id(s@),
        r matches Err(e) ==> e == RepoError::KeyUnavailable,
{
    match random_bytes(16) {
        Some(bytes) => {
            let s = hex_encode(bytes.as_slice());
            proof {
                lemma_hex_len(bytes@);
                lemma_hex_valid(bytes@);
            }
            Ok(s)
        },
        None => Err(RepoError::KeyUnavailable),
    }
}

proof fn lemma_hex_valid(bytes: Seq<u8>)
    ensures
        forall|i: int| 0 <= i < hex_of(bytes).len() ==> is_id_char(#[trigger] hex_of(bytes)[i]),
    decreases bytes.len(),
{
    if bytes.len() > 0 {
        lemma_hex_valid(bytes.drop_last());
        let prev = hex_of(bytes.drop_last());
        let hi = bytes.last() / 16;
        let lo = bytes.last() % 16;
        lemma_hex_char_valid(hi);
        lemma_hex_char_valid(lo);
        assert forall|i: int| 0 <= i < hex_of(bytes).len() implies is_id_char(
            #[trigger] hex_of(bytes)[i],
        ) by {
            if i < prev.len() {
                assert(hex_of(bytes)[i] == prev[i]);
            }
        }
    }
}

proof fn lemma_hex_char_valid(n: u8)
    requires
        n < 16,
    ensures
        is_id_char(hex_char(n)),
{
}

/// A stable, opaque entity identifier.
#[derive(Debug, PartialEq, Eq, PartialOrd, Ord, Hash)]
pub struct EntityId(pub String);

impl Clone for EntityId {
    fn clone(&self) -> (r: Self)
        ensures
            r == *self,
    {
        EntityId(self.0.clone())
    }
}

impl View for EntityId {
    type V = Seq<char>;

    open spec fn view(&self) -> Seq<char> {
        self.0@
    }
}

impl EntityId {
    /// A fresh random identifier. Fails only when the operating system
    /// cannot supply randomness.
    pub fn new() -> (r: Result<EntityId, RepoError>)
        ensures
            r matches Ok(id) ==> valid_id(id.0@),
            r matches Err(e) ==> e == RepoError::KeyUnavailable,
    {
        let s = random_id()?;
        Ok(EntityId(s))
    }

    pub fn parse(value: &str) -> (r: Result<EntityId, RepoError>)
        ensures
            valid_id(value@) ==> (r matches Ok(id) && id.0@ == value@),
            !valid_id(value@) ==> r == Err::<EntityId, RepoError>(RepoError::InvalidRequest),
    {
        if check_id(value) {
            Ok(EntityId(value.to_owned()))
        } else {
            Err(RepoError::InvalidRequest)
        }
    }

    pub fn as_str(&self) -> (r: &str)
        ensures
            r@ == self.0@,
    {
        self.0.as_str()
    }

    pub fn to_string(&self) -> (r: String)
        ensures
            r@ == self.0@,
    {
        self.0.clone()
    }

    pub fn same(&self, other: &EntityId) -> (r: bool)
        ensures
            r == (self.0@ == other.0@),
    {
        self.0 == other.0
    }
}

/// A client-supplied key that makes a command safe to repeat.
#[derive(Debug, PartialEq, Eq)]
pub struct IdempotencyKey(pub String);

impl Clone for IdempotencyKey {
    fn clone(&self) -> (r: Self)
        ensures
            r == *self,
    {
        IdempotencyKey(self.0.clone())
    }
}

impl IdempotencyKey {
    pub fn new() -> (r: Result<IdempotencyKey, RepoError>)
        ensures
            r matches Ok(k) ==> valid_id(k.0@),
            r matches Err(e) ==> e == RepoError::KeyUnavailable,
    {
        let s = random_id()?;
        Ok(IdempotencyKey(s))
    }

    pub fn parse(value: &str) -> (r: Result<IdempotencyKey, RepoError>)
        ensures
            valid_id(value@) ==> (r matches Ok(k) && k.0@ == value@),
            !valid_id(value@) ==> r == Err::<IdempotencyKey, RepoError>(RepoError::InvalidRequest),
    {
        if check_id(value) {
            Ok(IdempotencyKey(value.to_owned()))
        } else {
            Err(RepoError::InvalidRequest)
        }
    }

    pub fn as_str(&self) -> (r: &str)
        ensures
            r@ == self.0@,
    {
        self.0.as_str()
    }
}

/// The encounter phase that decides what the overlay may show.
#[derive(Clone, Copy, Debug, PartialEq, Eq, Structural)]
pub enum InternalPhase {
    Idle,
    PreMatch,
    InGameRestricted,
    BetweenGames,
    Finished,
    Incomplete,
}

#[derive(Clone, Copy, Debug, PartialEq, Eq, Structural)]
pub enum EncounterStatus {
    Active,
    Finished,
    Incomplete,
}

} // verus!
