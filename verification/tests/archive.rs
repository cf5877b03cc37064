use mtgo_notes::archive::{
    archive_digest, ArchiveEnvelope, ArchiveReader, ArchiveVerification, ArchiveWriter, ClassifierProvenance,
    ManifestAccumulator, FINAL_FRAME,
};
use mtgo_notes::backup::{build_backup, BackupRequest, BackupStop, DestinationFacts};
use mtgo_notes::domain::{EntityId, IdempotencyKey, RepoError, UtcMillis};
use mtgo_notes::operations::OperationState;

const ENVELOPE_BYTES: &[u8] = b"{\"formatVersion\":1}";

fn split_frame(frame: &[u8]) -> (u8, &[u8]) {
    let length = u32::from_be_bytes([frame[1], frame[2], frame[3], frame[4]]) as usize;
    assert_eq!(frame.len(), 5 + length);
    (frame[0], &frame[5..])
}

fn seal(passphrase: &str, lines: &[&[u8]]) -> (ArchiveEnvelope, Vec<Vec<u8>>) {
    let (envelope, key) =
        ArchiveWriter::prepare(passphrase, ArchiveEnvelope::with_material([7; 16], [9; 4]))
            .expect("prepare");
    let (mut writer, _header) =
        ArchiveWriter::new(key, envelope.cipher.nonce_prefix, ENVELOPE_BYTES).expect("writer");
    let mut frames = Vec::new();
    for line in &lines[..lines.len() - 1] {
        frames.extend(writer.write_plaintext(line).expect("write"));
    }
    frames.extend(writer.finish(lines[lines.len() - 1]).expect("finish"));
    (envelope, frames)
}

#[test]
fn ut_077_manifest_contains_versions_counts_hashes_and_classifier_provenance() {
    let mut accumulator = ManifestAccumulator::new();
    accumulator
        .push("opponent_profiles", b"{\"table\":\"opponent_profiles\",\"key\":\"a\"}")
        .expect("push");
    accumulator
        .push("observations", b"{\"table\":\"observations\",\"key\":\"b\"}")
        .expect("push");
    let manifest = accumulator.finish(
        UtcMillis::new(1_700_000_000_000).expect("time"),
        1,
        vec![ClassifierProvenance {
            version: "2026.07.1".to_string(),
            digest: "a".repeat(64),
        }],
    );
    assert_eq!(manifest.format_version, 1);
    assert_eq!(manifest.schema_min, 1);
    assert_eq!(manifest.record_count, 2);
    let count = manifest
        .table_counts
        .iter()
        .find(|(table, _)| table == "observations")
        .map(|(_, n)| *n);
    assert_eq!(count, Some(1));
    let hash = manifest
        .table_hashes
        .iter()
        .find(|(table, _)| table == "observations")
        .map(|(_, h)| h.len());
    assert_eq!(hash, Some(64));
    assert_eq!(manifest.classifier_provenance.len(), 1);

    let mut verification = ArchiveVerification::new();
    verification
        .record("opponent_profiles", b"{\"table\":\"opponent_profiles\",\"key\":\"a\"}")
        .expect("record");
    verification
        .record("observations", b"{\"table\":\"observations\",\"key\":\"b\"}")
        .expect("record");
    verification.accept_manifest(manifest.copy()).expect("manifest");
    let verified = verification
        .conclude(ArchiveEnvelope::with_material([7; 16], [9; 4]), b"archive bytes")
        .expect("verified");
    assert_eq!(verified.manifest, manifest);
    assert_eq!(
        verified.archive_sha256,
        "cc9c340301ad4ba5e54aa24b442ff938d1ed84f7f32c4c5a73773c58af37bd1b"
    );
}

#[test]
fn archive_digest_is_the_hex_sha256_of_the_bytes() {
    assert_eq!(
        archive_digest(b"archive bytes"),
        "cc9c340301ad4ba5e54aa24b442ff938d1ed84f7f32c4c5a73773c58af37bd1b"
    );
    assert_eq!(
        archive_digest(b""),
        "e3b0c44298fc1c149afbf4c8996fb92427ae41e4649b934ca495991b7852b855"
    );
}

#[test]
fn writer_frames_open_back_in_the_reader() {
    let lines: [&[u8]; 2] = [b"first record\n", b"manifest line\n"];
    let (envelope, frames) = seal("correct horse battery staple", &lines);
    let mut reader =
        ArchiveReader::open("correct horse battery staple", &envelope, ENVELOPE_BYTES)
            .expect("open");
    let mut seen = Vec::new();
    for frame in &frames {
        let (flag, ciphertext) = split_frame(frame);
        seen.extend(reader.accept_frame(flag, ciphertext).expect("frame"));
    }
    assert_eq!(seen, vec![b"first record".to_vec(), b"manifest line".to_vec()]);
    assert_eq!(reader.finish(), Ok(()));
    let (last_flag, _) = split_frame(frames.last().expect("final"));
    assert_eq!(last_flag, FINAL_FRAME);
}

#[test]
fn wrong_passphrase_and_damaged_frames_are_refused() {
    let lines: [&[u8]; 1] = [b"manifest line\n"];
    let (envelope, frames) = seal("right", &lines);
    assert!(matches!(
        ArchiveReader::open("wrong", &envelope, ENVELOPE_BYTES),
        Err(RepoError::WrongPassphrase)
    ));
    let mut reader = ArchiveReader::open("right", &envelope, ENVELOPE_BYTES).expect("open");
    let (flag, ciphertext) = split_frame(&frames[0]);
    let mut damaged = ciphertext.to_vec();
    let last = damaged.len() - 1;
    damaged[last] ^= 1;
    assert_eq!(reader.accept_frame(flag, &damaged), Err(RepoError::InvalidBackup));
    assert!(reader.accept_frame(flag, ciphertext).is_ok());
    assert!(matches!(
        ArchiveReader::open("", &envelope, ENVELOPE_BYTES),
        Err(RepoError::InvalidRequest)
    ));
}

#[test]
fn frames_must_arrive_in_order() {
    let lines: [&[u8]; 2] = [b"a\n", b"b\n"];
    let (envelope, frames) = seal("pass", &lines);
    let mut reader = ArchiveReader::open("pass", &envelope, ENVELOPE_BYTES).expect("open");
    if frames.len() > 1 {
        let (flag, ciphertext) = split_frame(&frames[1]);
        assert_eq!(reader.accept_frame(flag, ciphertext), Err(RepoError::InvalidBackup));
    } else {
        let (_, ciphertext) = split_frame(&frames[0]);
        assert_eq!(reader.accept_frame(0, ciphertext), Err(RepoError::InvalidBackup));
    }
}

fn backup_request(acknowledged: bool, confirm_empty: bool) -> BackupRequest {
    BackupRequest {
        operation_id: EntityId::new().expect("id"),
        destination: "backup.mtgonotes".to_string(),
        passphrase_acknowledged: acknowledged,
        confirm_empty,
        overwrite: false,
        idempotency_key: IdempotencyKey::new().expect("key"),
    }
}

fn backup_destination() -> DestinationFacts {
    DestinationFacts {
        file_name: Some("backup.mtgonotes".to_string()),
        extension: Some("mtgonotes".to_string()),
        exists: false,
        parent_is_dir: true,
    }
}

fn backup_writer() -> ArchiveWriter {
    let (envelope, key) =
        ArchiveWriter::prepare("pass phrase", ArchiveEnvelope::with_material([3; 16], [4; 4]))
            .expect("prepare");
    ArchiveWriter::new(key, envelope.cipher.nonce_prefix, ENVELOPE_BYTES).expect("writer").0
}

#[test]
fn a_backup_is_checked_before_anything_is_sealed() {
    let lines = vec![("observations".to_string(), b"{\"a\":1}\n".to_vec())];
    let mut writer = backup_writer();
    let destination = backup_destination();
    assert_eq!(
        build_backup(&backup_request(false, true), "pass phrase", &destination, 1, false, false, &mut writer, &lines).err(),
        Some(BackupStop::Refused(RepoError::AcknowledgementRequired))
    );
    assert_eq!(
        build_backup(&backup_request(true, false), "pass phrase", &destination, 0, false, false, &mut writer, &lines).err(),
        Some(BackupStop::Refused(RepoError::EmptyPortabilityConfirmationRequired))
    );
    assert_eq!(
        build_backup(&backup_request(true, true), "pass phrase", &destination, 1, true, false, &mut writer, &lines).err(),
        Some(BackupStop::Refused(RepoError::OperationBusy))
    );
    assert_eq!(
        build_backup(&backup_request(true, true), "pass phrase", &destination, 1, false, true, &mut writer, &lines).err(),
        Some(BackupStop::Settled(OperationState::Cancelled, RepoError::InvalidRequest))
    );
    assert_eq!(writer.counter, 0);
    assert!(writer.pending.is_empty());
}

#[test]
fn a_backup_seals_its_lines_and_reads_back() {
    let lines = vec![
        ("opponent_profiles".to_string(), b"{\"p\":1}\n".to_vec()),
        ("observations".to_string(), b"{\"o\":1}\n".to_vec()),
        ("observations".to_string(), b"{\"o\":2}\n".to_vec()),
    ];
    let mut writer = backup_writer();
    let (frames, accumulator) = build_backup(
        &backup_request(true, false),
        "pass phrase",
        &backup_destination(),
        2,
        false,
        false,
        &mut writer,
        &lines,
    )
    .expect("backup");
    assert!(frames.is_empty());
    assert_eq!(writer.pending, b"{\"p\":1}\n{\"o\":1}\n{\"o\":2}\n".to_vec());
    let manifest = accumulator.finish(UtcMillis::new(5).expect("time"), 3, Vec::new());
    assert_eq!(manifest.record_count, 3);
    let observations = manifest
        .table_counts
        .iter()
        .find(|(table, _)| table == "observations")
        .map(|(_, n)| *n);
    assert_eq!(observations, Some(2));
    let closing = writer.finish(b"manifest\n").expect("finish");
    assert_eq!(closing.len(), 1);

    let (envelope, _) =
        ArchiveWriter::prepare("pass phrase", ArchiveEnvelope::with_material([3; 16], [4; 4]))
            .expect("prepare");
    let mut reader = ArchiveReader::open("pass phrase", &envelope, ENVELOPE_BYTES).expect("open");
    let (flag, ciphertext) = split_frame(&closing[0]);
    let seen = reader.accept_frame(flag, ciphertext).expect("frame");
    assert_eq!(
        seen,
        vec![
            b"{\"p\":1}".to_vec(),
            b"{\"o\":1}".to_vec(),
            b"{\"o\":2}".to_vec(),
            b"manifest".to_vec()
        ]
    );
    assert_eq!(reader.finish(), Ok(()));
}
