use std::collections::HashMap;

use bytes::Bytes;
use redis_store::digest::DigestInfo;
use redis_store::ingest::{Ingest, IngestStep, UploadSizeInfo};
use redis_store::ranged_read::ReadStep;
use redis_store::store::{RedisStore, TempNameGenerator};

struct Counter(std::cell::Cell<u32>);

impl TempNameGenerator for Counter {
    fn temp_name(&self) -> String {
        let n = self.0.get();
        self.0.set(n + 1);
        format!("upload-{n}")
    }
}

fn counting_store() -> RedisStore<(), Counter> {
    match RedisStore::new_with_conn_and_name_generator((), Counter(std::cell::Cell::new(0))) {
        Ok(store) => store,
        Err(e) => panic!("no store: {:?}", e),
    }
}

/// What a commit asks of the backend where all goes well.
struct Planned {
    batch: redis::Pipeline,
    temp_key: String,
    final_key: String,
}

/// A backend in memory that treats the commands of the store as Redis does.
struct Memory {
    data: HashMap<Vec<u8>, Vec<u8>>,
}

impl Memory {
    fn new() -> Memory {
        Memory { data: HashMap::new() }
    }

    fn run_batch(&mut self, batch: &redis::Pipeline) {
        for command in batch.cmd_iter() {
            let arguments: Vec<Vec<u8>> = command
                .args_iter()
                .map(|argument| match argument {
                    redis::Arg::Simple(bytes) => bytes.to_vec(),
                    redis::Arg::Cursor => panic!("a cursor in a batch of appends"),
                })
                .collect();
            assert_eq!(arguments.len(), 3);
            assert_eq!(arguments[0], b"APPEND".to_vec());
            self.data.entry(arguments[1].clone()).or_default().extend_from_slice(&arguments[2]);
        }
    }

    fn rename(&mut self, from: &str, to: &str) -> bool {
        match self.data.remove(from.as_bytes()) {
            Some(value) => {
                self.data.insert(to.as_bytes().to_vec(), value);
                true
            }
            None => false,
        }
    }

    fn commit(&mut self, commit: &Planned) {
        self.run_batch(&commit.batch);
        assert!(self.rename(&commit.temp_key, &commit.final_key));
    }

    fn getrange(&self, key: &str, start: isize, end: isize) -> Bytes {
        assert!(start >= 0 && end >= 0);
        let value: &[u8] = self.data.get(key.as_bytes()).map(|v| v.as_slice()).unwrap_or(&[]);
        let (start, end) = (start as usize, end as usize);
        if start > end || start >= value.len() {
            return Bytes::new();
        }
        let stop = if end + 1 < value.len() { end + 1 } else { value.len() };
        Bytes::copy_from_slice(&value[start..stop])
    }

    fn read(&self, store: &RedisStore<(), Counter>, digest: DigestInfo) -> Vec<u8> {
        let mut delivered = vec![];
        let mut step = store.get_part_ref(digest, 0, None);
        loop {
            step = match step {
                ReadStep::SendEof(_) => return delivered,
                ReadStep::CheckExists(_) => panic!("an existence check in a read to the end"),
                ReadStep::Fetch(read) => {
                    let chunk = self.getrange(read.key(), read.start(), read.end());
                    match read.on_chunk(chunk) {
                        Ok(next) => next,
                        Err(e) => panic!("the read failed: {:?}", e),
                    }
                }
                ReadStep::SendThenFetch(chunk, read) => {
                    delivered.extend_from_slice(&chunk);
                    ReadStep::Fetch(read)
                }
                ReadStep::SendThenEof(chunk) => {
                    delivered.extend_from_slice(&chunk);
                    return delivered;
                }
            };
        }
    }
}

fn digest_of(tag: u8, blob: &[u8]) -> DigestInfo {
    DigestInfo::new([tag; 32], blob.len() as u64)
}

fn blob_of(len: usize, seed: u8) -> Vec<u8> {
    (0..len).map(|i| ((i * 31 + seed as usize) % 256) as u8).collect()
}

/// Feeds `blob` to `ingest` in chunks of `chunk_len` bytes, then the end of the stream.
fn upload(mut ingest: Ingest, blob: &[u8], chunk_len: usize) -> Planned {
    for chunk in blob.chunks(chunk_len) {
        ingest = match ingest.on_chunk(&Bytes::copy_from_slice(chunk)) {
            IngestStep::Receive(next) => next,
            _ => panic!("the upload stopped before the end of the stream"),
        };
    }
    let commit = match ingest.on_chunk(&Bytes::new()) {
        IngestStep::Commit(commit) => commit,
        _ => panic!("the upload did not commit at the end of the stream"),
    };
    let batch = commit.batch().clone();
    match commit.on_batch(Ok(())) {
        Ok(rename) => Planned { batch, temp_key: rename.from, final_key: rename.to },
        Err(e) => panic!("a batch that ran was taken for a failure: {:?}", e),
    }
}

#[test]
fn uploaded_blob_reads_back_whole() {
    let store = counting_store();
    let mut backend = Memory::new();
    for (tag, size) in [1usize, 65535, 65536, 65537, 3 * 1024 * 1024 + 5].into_iter().enumerate() {
        let blob = blob_of(size, tag as u8);
        let digest = digest_of(tag as u8 + 1, &blob);
        for chunk_len in [1000usize, 65536, 1 << 20] {
            let ingest = store.update(digest, UploadSizeInfo::ExactSize(size));
            backend.commit(&upload(ingest, &blob, chunk_len));
            assert_eq!(backend.read(&store, digest), blob, "size {size}, chunks of {chunk_len}");
        }
    }
    assert_eq!(backend.data.len(), 5);
}

#[test]
fn upload_in_single_bytes_reads_back_whole() {
    let store = counting_store();
    let mut backend = Memory::new();
    let blob = blob_of(300, 9);
    let digest = digest_of(9, &blob);
    let ingest = store.update(digest, UploadSizeInfo::MaxSize(300));
    backend.commit(&upload(ingest, &blob, 1));
    assert_eq!(backend.read(&store, digest), blob);
}

#[test]
fn second_upload_replaces_the_first() {
    let store = counting_store();
    let mut backend = Memory::new();
    let digest = DigestInfo::new([3; 32], 4);
    backend.commit(&upload(store.update(digest, UploadSizeInfo::ExactSize(4)), b"abcd", 2));
    backend.commit(&upload(store.update(digest, UploadSizeInfo::ExactSize(4)), b"wxyz", 3));
    assert_eq!(backend.read(&store, digest), b"wxyz".to_vec());
    assert_eq!(backend.data.len(), 1);
}

#[test]
fn concurrent_uploads_of_different_blobs_both_complete() {
    let first_blob = blob_of(100000, 1);
    let second_blob = blob_of(70000, 2);
    let first_digest = digest_of(1, &first_blob);
    let second_digest = digest_of(2, &second_blob);
    // The rounds of the first upload are 0 (batch) and 1 (rename); those of the
    // second are 2 and 3.
    let schedules = [
        [0, 1, 2, 3],
        [0, 2, 1, 3],
        [0, 2, 3, 1],
        [2, 0, 1, 3],
        [2, 0, 3, 1],
        [2, 3, 0, 1],
    ];
    for schedule in schedules {
        let store = counting_store();
        let mut backend = Memory::new();
        let first = upload(
            store.update(first_digest, UploadSizeInfo::ExactSize(100000)),
            &first_blob,
            4096,
        );
        let second = upload(
            store.update(second_digest, UploadSizeInfo::ExactSize(70000)),
            &second_blob,
            65536,
        );
        assert_ne!(first.temp_key, second.temp_key);
        for round in schedule {
            match round {
                0 => backend.run_batch(&first.batch),
                1 => assert!(backend.rename(&first.temp_key, &first.final_key)),
                2 => backend.run_batch(&second.batch),
                _ => assert!(backend.rename(&second.temp_key, &second.final_key)),
            }
        }
        assert_eq!(backend.read(&store, first_digest), first_blob, "{:?}", schedule);
        assert_eq!(backend.read(&store, second_digest), second_blob, "{:?}", schedule);
        assert_eq!(backend.data.len(), 2);
    }
}

#[test]
fn concurrent_uploads_of_one_digest_end_with_the_last_rename() {
    let digest = DigestInfo::new([8; 32], 6);
    // As above; the last round is always a rename, of the first upload (1) or of
    // the second (3).
    let schedules = [
        [0, 1, 2, 3],
        [0, 2, 1, 3],
        [0, 2, 3, 1],
        [2, 0, 1, 3],
        [2, 0, 3, 1],
        [2, 3, 0, 1],
    ];
    for schedule in schedules {
        let store = counting_store();
        let mut backend = Memory::new();
        let first = upload(store.update(digest, UploadSizeInfo::ExactSize(6)), b"first!", 2);
        let second = upload(store.update(digest, UploadSizeInfo::ExactSize(6)), b"second", 4);
        for round in schedule {
            match round {
                0 => backend.run_batch(&first.batch),
                1 => assert!(backend.rename(&first.temp_key, &first.final_key)),
                2 => backend.run_batch(&second.batch),
                _ => assert!(backend.rename(&second.temp_key, &second.final_key)),
            }
        }
        let winner: &[u8] = if schedule[3] == 1 { b"first!" } else { b"second" };
        assert_eq!(backend.read(&store, digest), winner.to_vec(), "{:?}", schedule);
        assert_eq!(backend.data.len(), 1);
    }
}

#[test]
fn upload_whose_batch_failed_leaves_an_earlier_blob_alone() {
    let store = counting_store();
    let mut backend = Memory::new();
    let digest = DigestInfo::new([7; 32], 4);
    backend.commit(&upload(store.update(digest, UploadSizeInfo::ExactSize(4)), b"kept", 4));
    let ingest = store.update(digest, UploadSizeInfo::ExactSize(4));
    let ingest = match ingest.on_chunk(&Bytes::from_static(b"lost")) {
        IngestStep::Receive(ingest) => ingest,
        _ => panic!("the upload stopped before the end of the stream"),
    };
    let commit = match ingest.on_chunk(&Bytes::new()) {
        IngestStep::Commit(commit) => commit,
        _ => panic!("the upload did not commit at the end of the stream"),
    };
    let failure = redis::RedisError::from((redis::ErrorKind::IoError, "connection lost"));
    assert!(commit.on_batch(Err(failure)).is_err());
    assert_eq!(backend.read(&store, digest), b"kept".to_vec());
}

#[test]
fn abandoned_upload_leaves_the_blob_unreadable() {
    let store = counting_store();
    let backend = Memory::new();
    let blob = blob_of(5000, 4);
    let digest = digest_of(4, &blob);
    let mut ingest = store.update(digest, UploadSizeInfo::ExactSize(5000));
    for chunk in blob.chunks(512).take(6) {
        ingest = match ingest.on_chunk(&Bytes::copy_from_slice(chunk)) {
            IngestStep::Receive(next) => next,
            _ => panic!("the upload stopped before the end of the stream"),
        };
    }
    drop(ingest);
    assert!(backend.data.is_empty());
    assert!(backend.read(&store, digest).is_empty());
}

#[test]
fn abandoned_upload_leaves_an_earlier_blob_alone() {
    let store = counting_store();
    let mut backend = Memory::new();
    let digest = DigestInfo::new([6; 32], 4);
    backend.commit(&upload(store.update(digest, UploadSizeInfo::ExactSize(4)), b"kept", 4));
    let ingest = store.update(digest, UploadSizeInfo::ExactSize(4));
    match ingest.on_chunk(&Bytes::from_static(b"lo")) {
        IngestStep::Receive(ingest) => drop(ingest),
        _ => panic!("the upload stopped before the end of the stream"),
    }
    assert_eq!(backend.read(&store, digest), b"kept".to_vec());
}
