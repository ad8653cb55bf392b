use bytes::Bytes;
use redis_store::digest::{digest_to_key, DigestInfo, EMPTY_HASH};
use redis_store::error::{Code, Error};
use redis_store::ingest::{Commit, Ingest, IngestStep, UploadSizeInfo};
use redis_store::store::{RedisStore, RedisStoreConfig, TempNameGenerator, UuidTempNames};

struct FixedName(&'static str);

impl TempNameGenerator for FixedName {
    fn temp_name(&self) -> String {
        self.0.to_string()
    }
}

fn ingest_store(name: &'static str) -> RedisStore<(), FixedName> {
    match RedisStore::new_with_conn_and_name_generator((), FixedName(name)) {
        Ok(store) => store,
        Err(e) => panic!("no store: {:?}", e),
    }
}

fn arguments_of(pipe: &redis::Pipeline) -> Vec<Vec<Vec<u8>>> {
    pipe.cmd_iter()
        .map(|command| {
            command
                .args_iter()
                .map(|argument| match argument {
                    redis::Arg::Simple(bytes) => bytes.to_vec(),
                    redis::Arg::Cursor => panic!("a cursor in a batch of appends"),
                })
                .collect()
        })
        .collect()
}

fn feed(mut ingest: Ingest, chunks: &[&[u8]]) -> Ingest {
    for chunk in chunks {
        ingest = match ingest.on_chunk(&Bytes::copy_from_slice(chunk)) {
            IngestStep::Receive(next) => next,
            IngestStep::Done => panic!("done before the end of the stream"),
            IngestStep::Commit(_) => panic!("commit before the end of the stream"),
        };
    }
    ingest
}

/// What a commit asks of the backend where all goes well.
struct Planned {
    batch: redis::Pipeline,
    temp_key: String,
    final_key: String,
}

fn pending_commit(step: IngestStep) -> Commit {
    match step {
        IngestStep::Commit(commit) => commit,
        IngestStep::Receive(_) => panic!("still receiving after the end of the stream"),
        IngestStep::Done => panic!("done without a commit"),
    }
}

fn commit_of(step: IngestStep) -> Planned {
    let commit = pending_commit(step);
    let batch = commit.batch().clone();
    match commit.on_batch(Ok(())) {
        Ok(rename) => Planned { batch, temp_key: rename.from, final_key: rename.to },
        Err(e) => panic!("a batch that ran was taken for a failure: {:?}", e),
    }
}

fn backend_failure() -> redis::RedisError {
    redis::RedisError::from((redis::ErrorKind::IoError, "connection lost"))
}

fn blob_digest() -> DigestInfo {
    DigestInfo::new([0xab; 32], 11)
}

#[test]
fn zero_digest_with_empty_stream_is_done_at_once() {
    let zero = DigestInfo::new(EMPTY_HASH, 0);
    let ingest = ingest_store("n1").update(zero, UploadSizeInfo::ExactSize(0));
    assert!(matches!(ingest.on_chunk(&Bytes::new()), IngestStep::Done));
}

#[test]
fn zero_digest_update_is_done_every_time() {
    let zero = DigestInfo::new(EMPTY_HASH, 0);
    let store = ingest_store("n1");
    for _ in 0..3 {
        let ingest = store.update(zero, UploadSizeInfo::MaxSize(100));
        assert!(matches!(ingest.on_chunk(&Bytes::new()), IngestStep::Done));
    }
}

#[test]
fn chunks_are_appended_in_order_and_committed_at_the_end() {
    let ingest = ingest_store("name-7").update(blob_digest(), UploadSizeInfo::ExactSize(11));
    let ingest = feed(ingest, &[b"hello", b" ", b"world"]);
    let commit = commit_of(ingest.on_chunk(&Bytes::new()));
    assert_eq!(commit.temp_key, "temp-name-7");
    assert_eq!(commit.final_key, digest_to_key(&blob_digest()));
    assert_eq!(
        arguments_of(&commit.batch),
        vec![
            vec![b"APPEND".to_vec(), b"temp-name-7".to_vec(), b"hello".to_vec()],
            vec![b"APPEND".to_vec(), b"temp-name-7".to_vec(), b" ".to_vec()],
            vec![b"APPEND".to_vec(), b"temp-name-7".to_vec(), b"world".to_vec()],
        ]
    );
}

#[test]
fn batch_is_sent_as_one_transaction() {
    let ingest = Ingest::begin(&blob_digest(), "t");
    let ingest = feed(ingest, &[b"ab", b"c"]);
    let commit = commit_of(ingest.on_chunk(&Bytes::new()));
    assert_eq!(
        commit.batch.get_packed_pipeline(),
        b"*1\r\n$5\r\nMULTI\r\n\
          *3\r\n$6\r\nAPPEND\r\n$6\r\ntemp-t\r\n$2\r\nab\r\n\
          *3\r\n$6\r\nAPPEND\r\n$6\r\ntemp-t\r\n$1\r\nc\r\n\
          *1\r\n$4\r\nEXEC\r\n"
            .to_vec()
    );
}

#[test]
fn chunk_bytes_are_kept_as_they_are() {
    let data: Vec<u8> = (0..=255u8).collect();
    let ingest = Ingest::begin(&blob_digest(), "raw");
    let ingest = feed(ingest, &[&data]);
    let commit = commit_of(ingest.on_chunk(&Bytes::new()));
    assert_eq!(
        arguments_of(&commit.batch),
        vec![vec![b"APPEND".to_vec(), b"temp-raw".to_vec(), data]]
    );
}

#[test]
fn empty_stream_of_another_digest_is_committed() {
    let ingest = Ingest::begin(&blob_digest(), "e");
    let commit = commit_of(ingest.on_chunk(&Bytes::new()));
    assert!(arguments_of(&commit.batch).is_empty());
    assert_eq!(commit.temp_key, "temp-e");
    assert_eq!(commit.final_key, digest_to_key(&blob_digest()));
}

#[test]
fn size_zero_with_another_hash_is_committed_like_any_blob() {
    let digest = DigestInfo::new([0u8; 32], 0);
    let ingest = Ingest::begin(&digest, "z");
    let commit = commit_of(ingest.on_chunk(&Bytes::new()));
    assert_eq!(commit.final_key, digest_to_key(&digest));
}

#[test]
fn zero_digest_with_data_is_committed() {
    let zero = DigestInfo::new(EMPTY_HASH, 0);
    let ingest = Ingest::begin(&zero, "zd");
    let ingest = feed(ingest, &[b"x"]);
    let commit = commit_of(ingest.on_chunk(&Bytes::new()));
    assert_eq!(
        arguments_of(&commit.batch),
        vec![vec![b"APPEND".to_vec(), b"temp-zd".to_vec(), b"x".to_vec()]]
    );
    assert_eq!(commit.final_key, digest_to_key(&zero));
}

#[test]
fn failed_batch_fails_the_upload_without_a_rename() {
    let ingest = Ingest::begin(&blob_digest(), "fb");
    let ingest = feed(ingest, &[b"data"]);
    let commit = pending_commit(ingest.on_chunk(&Bytes::new()));
    let shown = format!("{}", backend_failure());
    match commit.on_batch(Err(backend_failure())) {
        Ok(_) => panic!("a rename was given out after a failed batch"),
        Err(e) => {
            assert_eq!(e.code, Code::Internal);
            assert_eq!(e.messages, vec![format!("Redis Error: {shown}")]);
        }
    }
}

#[test]
fn rename_that_ran_completes_the_upload() {
    let ingest = Ingest::begin(&blob_digest(), "ok");
    let ingest = feed(ingest, &[b"data"]);
    let commit = pending_commit(ingest.on_chunk(&Bytes::new()));
    let rename = match commit.on_batch(Ok(())) {
        Ok(rename) => rename,
        Err(e) => panic!("a batch that ran was taken for a failure: {:?}", e),
    };
    assert_eq!(rename.from, "temp-ok");
    assert_eq!(rename.to, digest_to_key(&blob_digest()));
    assert_eq!(rename.on_renamed(Ok(())), Ok(()));
}

#[test]
fn failed_rename_fails_the_upload() {
    let ingest = Ingest::begin(&blob_digest(), "fr");
    let commit = pending_commit(ingest.on_chunk(&Bytes::new()));
    let rename = match commit.on_batch(Ok(())) {
        Ok(rename) => rename,
        Err(e) => panic!("a batch that ran was taken for a failure: {:?}", e),
    };
    let cause = redis::RedisError::from((redis::ErrorKind::ResponseError, "no such key"));
    let shown = format!("{cause}");
    match rename.on_renamed(Err(cause)) {
        Ok(()) => panic!("a rename that failed was taken for a success"),
        Err(e) => {
            assert_eq!(e.code, Code::Internal);
            assert_eq!(e.messages, vec![format!("Redis Error: {shown}")]);
        }
    }
}

#[test]
fn nothing_is_handed_out_before_the_end_of_the_stream() {
    let mut ingest = Ingest::begin(&blob_digest(), "long");
    for round in 0..200usize {
        let chunk = Bytes::from(vec![round as u8; 1 + round % 7]);
        ingest = match ingest.on_chunk(&chunk) {
            IngestStep::Receive(next) => next,
            _ => panic!("stopped receiving in round {round}"),
        };
    }
}

#[test]
fn abandoned_stream_ends_in_its_error_with_context() {
    let ingest = Ingest::begin(&blob_digest(), "gone");
    let ingest = feed(ingest, &[b"partial"]);
    let cause = Error::new(Code::Internal, "Writer was dropped before EOF was sent".to_string());
    let e = ingest.on_receive_error(cause);
    assert_eq!(e.code, Code::Internal);
    assert_eq!(
        e.messages,
        vec![
            "Writer was dropped before EOF was sent".to_string(),
            "Failed to reach chunk in update in redis store".to_string(),
        ]
    );
}

#[test]
fn temporary_key_takes_the_generated_name() {
    let ingest = ingest_store("0c5ee5d6").update(blob_digest(), UploadSizeInfo::ExactSize(11));
    let commit = commit_of(ingest.on_chunk(&Bytes::new()));
    assert_eq!(commit.temp_key, "temp-0c5ee5d6");
}

#[test]
fn uuid_names_have_the_hyphenated_form() {
    for _ in 0..50 {
        let name = UuidTempNames.temp_name();
        let places: Vec<char> = name.chars().collect();
        assert_eq!(places.len(), 36);
        for (place, c) in places.iter().enumerate() {
            if [8, 13, 18, 23].contains(&place) {
                assert_eq!(*c, '-', "place {place} of {name}");
            } else {
                assert!(matches!(*c, '0'..='9' | 'a'..='f'), "place {place} of {name}");
            }
        }
    }
}

#[test]
fn default_names_are_uuids() {
    let config = RedisStoreConfig { addresses: vec!["redis://127.0.0.1/".to_string()] };
    let store = match RedisStore::<(), UuidTempNames>::new(&config, Ok(())) {
        Ok(store) => store,
        Err(e) => panic!("no store: {:?}", e),
    };
    let first = commit_of(
        store.update(blob_digest(), UploadSizeInfo::ExactSize(11)).on_chunk(&Bytes::new()),
    );
    let second = commit_of(
        store.update(blob_digest(), UploadSizeInfo::ExactSize(11)).on_chunk(&Bytes::new()),
    );
    for key in [&first.temp_key, &second.temp_key] {
        assert!(key.starts_with("temp-"));
        let name = &key["temp-".len()..];
        assert_eq!(name.chars().count(), 36);
        for (place, c) in name.chars().enumerate() {
            if [8, 13, 18, 23].contains(&place) {
                assert_eq!(c, '-', "place {place} of {name}");
            } else {
                assert!(matches!(c, '0'..='9' | 'a'..='f'), "place {place} of {name}");
            }
        }
    }
    assert_ne!(first.temp_key, second.temp_key);
    assert_eq!(first.final_key, second.final_key);
}
