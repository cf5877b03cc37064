//! The checks a backup request passes before any file is written, and how a
//! backup that failed or was cancelled ends.
use vstd::prelude::*;

use crate::archive::{data_frames, ArchiveManifest, ArchiveWriter, ManifestAccumulator, ARCHIVE_EXTENSION};
use crate::domain::{EntityId, IdempotencyKey, RepoError};
use crate::operations::{OperationRecord, OperationState};
use crate::text::str_eq;

verus! {

#[derive(Debug, PartialEq, Eq)]
pub struct BackupRequest {
    pub operation_id: EntityId,
    pub destination: String,
    pub passphrase_acknowledged: bool,
    pub confirm_empty: bool,
    pub overwrite: bool,
    pub idempotency_key: IdempotencyKey,
}

#[derive(Debug, PartialEq, Eq)]
pub struct BackupResult {
    pub operation: OperationRecord,
    pub destination: String,
    pub destination_name: String,
    pub manifest: ArchiveManifest,
}

/// What the caller read off the destination: its file name and extension
/// as text, whether something already exists there, and whether its parent
/// is an existing directory.
#[derive(Debug, PartialEq, Eq)]
pub struct DestinationFacts {
    pub file_name: Option<String>,
    pub extension: Option<String>,
    pub exists: bool,
    pub parent_is_dir: bool,
}

/// Why a backup request is refused before the notebook is read: no
/// acknowledgement that a lost passphrase cannot be recovered, an empty
/// passphrase, a destination that is not a backup file name, an existing
/// file without permission to overwrite it, or no directory to write into.
pub open spec fn request_refusal(
    request: BackupRequest,
    passphrase: Seq<char>,
    facts: DestinationFacts,
) -> Option<RepoError> {
    if !request.passphrase_acknowledged {
        Some(RepoError::AcknowledgementRequired)
    } else if passphrase.len() == 0 {
        Some(RepoError::InvalidRequest)
    } else if facts.file_name is None || !(facts.extension matches Some(e) && e@
        == ARCHIVE_EXTENSION@) {
        Some(RepoError::InvalidRequest)
    } else if facts.exists && !request.overwrite {
        Some(RepoError::InvalidRequest)
    } else if !facts.parent_is_dir {
        Some(RepoError::DestinationUnwritable)
    } else {
        None
    }
}

pub fn check_backup_request(request: &BackupRequest, passphrase: &str, facts: &DestinationFacts) -> (r:
    Result<(), RepoError>)
    ensures
        match request_refusal(*request, passphrase@, *facts) {
            Some(e) => r == Err::<(), RepoError>(e),
            None => r is Ok,
        },
{
    if !request.passphrase_acknowledged {
        return Err(RepoError::AcknowledgementRequired);
    }
    if passphrase.unicode_len() == 0 {
        return Err(RepoError::InvalidRequest);
    }
    let extension_ok = match &facts.extension {
        Some(e) => str_eq(e.as_str(), ARCHIVE_EXTENSION),
        None => false,
    };
    if facts.file_name.is_none() || !extension_ok {
        return Err(RepoError::InvalidRequest);
    }
    if facts.exists && !request.overwrite {
        return Err(RepoError::InvalidRequest);
    }
    if !facts.parent_is_dir {
        return Err(RepoError::DestinationUnwritable);
    }
    Ok(())
}

/// Why a backup of the notebook as it stands is refused: an empty notebook
/// without confirmation, or a deletion still being purged.
pub open spec fn contents_refusal(
    confirm_empty: bool,
    profile_count: u64,
    pending_deletion: bool,
) -> Option<RepoError> {
    if profile_count == 0 && !confirm_empty {
        Some(RepoError::EmptyPortabilityConfirmationRequired)
    } else if pending_deletion {
        Some(RepoError::OperationBusy)
    } else {
        None
    }
}

pub fn check_backup_contents(request: &BackupRequest, profile_count: u64, pending_deletion: bool) -> (r:
    Result<(), RepoError>)
    ensures
        match contents_refusal(request.confirm_empty, profile_count, pending_deletion) {
            Some(e) => r == Err::<(), RepoError>(e),
            None => r is Ok,
        },
{
    if profile_count == 0 && !request.confirm_empty {
        return Err(RepoError::EmptyPortabilityConfirmationRequired);
    }
    if pending_deletion {
        return Err(RepoError::OperationBusy);
    }
    Ok(())
}

/// How a failed backup, export or restore preview ends: a cancelled one is recorded as
/// cancelled and reported as an invalid request, any other as failed with
/// its own error.
pub fn settle_failure(cancelled: bool, error: RepoError) -> (r: (OperationState, RepoError))
    ensures
        cancelled ==> r == (OperationState::Cancelled, RepoError::InvalidRequest),
        !cancelled ==> r == (OperationState::Failed, error),
{
    if cancelled {
        (OperationState::Cancelled, RepoError::InvalidRequest)
    } else {
        (OperationState::Failed, error)
    }
}

/// Why a backup stopped before its records were sealed.
#[derive(Debug, PartialEq, Eq)]
pub enum BackupStop {
    /// Refused before the operation started: nothing was recorded or written.
    Refused(RepoError),
    /// Stopped after the operation started: it ends in the given state, and
    /// the caller is answered with the error.
    Settled(OperationState, RepoError),
}

/// The encoded record lines, one after another.
pub open spec fn joined_lines(lines: Seq<(String, Vec<u8>)>) -> Seq<u8>
    decreases lines.len(),
{
    if lines.len() == 0 {
        Seq::empty()
    } else {
        joined_lines(lines.drop_last()) + lines.last().1@
    }
}

/// Per table, how many of `lines` belong to it and their bytes in order.
pub open spec fn tables_after(lines: Seq<(String, Vec<u8>)>) -> Map<Seq<char>, (u64, Seq<u8>)>
    decreases lines.len(),
{
    if lines.len() == 0 {
        Map::empty()
    } else {
        let before = tables_after(lines.drop_last());
        let table = lines.last().0@;
        let line = lines.last().1@;
        before.insert(
            table,
            if before.contains_key(table) {
                ((before[table].0 + 1) as u64, before[table].1 + line)
            } else {
                (1u64, line)
            },
        )
    }
}

/// Seals the notebook's record lines into a backup: `lines` holds each
/// record's table and its encoded line (with its newline), read from a
/// snapshot of the notebook, and `writer` was started on the backup's
/// envelope.
///
/// The request is checked first, then what the notebook holds; a backup
/// cancelled before its records are sealed ends cancelled and is answered
/// as an invalid request; one that the writer cannot seal ends failed with
/// the writer's error. Otherwise every line is counted and hashed into the
/// returned manifest accumulator and the lines are sealed, in order, into
/// the returned frames, as one stream. The manifest line and the final
/// frame follow, from the accumulator and `ArchiveWriter::finish`.
pub fn build_backup(
    request: &BackupRequest,
    passphrase: &str,
    facts: &DestinationFacts,
    profile_count: u64,
    pending_deletion: bool,
    cancelled: bool,
    writer: &mut ArchiveWriter,
    lines: &Vec<(String, Vec<u8>)>,
) -> (r: Result<(Vec<Vec<u8>>, ManifestAccumulator), BackupStop>)
    requires
        old(writer).wf(),
    ensures
        final(writer).wf(),
        r is Err ==> *final(writer) == *old(writer),
        request_refusal(*request, passphrase@, *facts) matches Some(e) ==> r == Err::<
            (Vec<Vec<u8>>, ManifestAccumulator),
            BackupStop,
        >(BackupStop::Refused(e)),
        request_refusal(*request, passphrase@, *facts) is None ==> match contents_refusal(
            request.confirm_empty,
            profile_count,
            pending_deletion,
        ) {
            Some(e) => r == Err::<(Vec<Vec<u8>>, ManifestAccumulator), BackupStop>(
                BackupStop::Refused(e),
            ),
            None => if cancelled {
                r == Err::<(Vec<Vec<u8>>, ManifestAccumulator), BackupStop>(
                    BackupStop::Settled(OperationState::Cancelled, RepoError::InvalidRequest),
                )
            } else if old(writer).counter + data_frames(
                (old(writer).pending@ + joined_lines(lines@)).len(),
            ) <= u64::MAX {
                r matches Ok((frames, manifest)) && old(writer).sealed_into(
                    *final(writer),
                    joined_lines(lines@),
                    frames@,
                ) && manifest.wf() && manifest.tables() == tables_after(lines@)
                    && manifest.total() == lines@.len()
            } else {
                r == Err::<(Vec<Vec<u8>>, ManifestAccumulator), BackupStop>(
                    BackupStop::Settled(OperationState::Failed, RepoError::InvalidBackup),
                )
            },
        },
{
    if let Err(e) = check_backup_request(request, passphrase, facts) {
        return Err(BackupStop::Refused(e));
    }
    if let Err(e) = check_backup_contents(request, profile_count, pending_deletion) {
        return Err(BackupStop::Refused(e));
    }
    if cancelled {
        let (state, error) = settle_failure(true, RepoError::InvalidTransition);
        return Err(BackupStop::Settled(state, error));
    }
    let mut accumulator = ManifestAccumulator::new();
    let mut plaintext: Vec<u8> = Vec::new();
    let mut i: usize = 0;
    while i < lines.len()
        invariant
            i <= lines@.len(),
            accumulator.wf(),
            accumulator.total() == i,
            accumulator.tables() == tables_after(lines@.take(i as int)),
            plaintext@ == joined_lines(lines@.take(i as int)),
        decreases lines.len() - i,
    {
        let (table, line) = &lines[i];
        proof {
            assert(lines@.take(i + 1).drop_last() =~= lines@.take(i as int));
            assert(lines@.take(i + 1).last() == lines@[i as int]);
        }
        let _ = accumulator.push(table.as_str(), line.as_slice());
        append_bytes(&mut plaintext, line.as_slice());
        i = i + 1;
    }
    proof {
        assert(lines@.take(lines@.len() as int) =~= lines@);
    }
    match writer.write_plaintext(plaintext.as_slice()) {
        Ok(frames) => Ok((frames, accumulator)),
        Err(e) => {
            let (state, error) = settle_failure(false, e);
            Err(BackupStop::Settled(state, error))
        },
    }
}

fn append_bytes(out: &mut Vec<u8>, bytes: &[u8])
    ensures
        final(out)@ == old(out)@ + bytes@,
{
    let mut i: usize = 0;
    let ghost start = out@;
    while i < bytes.len()
        invariant
            i <= bytes@.len(),
            out@ == start + bytes@.take(i as int),
        decreases bytes.len() - i,
    {
        out.push(bytes[i]);
        proof {
            assert(bytes@.take(i + 1) =~= bytes@.take(i as int).push(bytes@[i as int]));
        }
        i = i + 1;
    }
    proof {
        assert(bytes@.take(bytes@.len() as int) =~= bytes@);
    }
}

} // verus!
