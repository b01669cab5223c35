//! The byte log of a pane.

use forgetty::session::byte_log::{preload_size, ByteLog, DiskAppender, Rotation};

#[test]
fn ring_overflow_keeps_newest() {
    let mut log = ByteLog::new(1024, 0, &[]);

    let total = 2 * 1024;
    let data: Vec<u8> = (0..total).map(|i| (i % 256) as u8).collect();
    log.append(&data);

    let (snapshot, hwm) = log.ring_snapshot();
    assert_eq!(snapshot.len(), 1024, "ring should be exactly ring_capacity after overflow");
    assert_eq!(hwm, total as u64, "cursor high-water mark = total bytes written");

    // The newest 1024 bytes are bytes[1024..2048].
    let expected_tail: Vec<u8> = data[1024..].to_vec();
    assert_eq!(
        &snapshot[..],
        &expected_tail[..],
        "ring snapshot should equal newest 1024 bytes"
    );
}

#[test]
fn ring_covers_single_write_under_capacity() {
    let mut log = ByteLog::new(256 * 1024, 0, &[]);

    let data: Vec<u8> = (0..100_000).map(|i| (i % 256) as u8).collect();
    log.append(&data);

    let (snapshot, hwm) = log.ring_snapshot();
    assert_eq!(snapshot.len(), 100_000, "ring holds all bytes when under capacity");
    assert_eq!(hwm, 100_000);
    assert_eq!(&snapshot[..], &data[..]);
}

#[test]
fn ring_cursor_matches_snapshot_when_under_capacity() {
    let mut log = ByteLog::new(256 * 1024, 0, &[]);

    log.append(b"hello ");
    log.append(b"world");
    let (snap, hwm) = log.ring_snapshot();
    assert_eq!(&snap[..], b"hello world");
    assert_eq!(hwm, 11);
}

/// The size of a file to which chunks of one length are written, cut back
/// whenever that is due.
fn size_after_chunks(max_disk: u64, chunk: u64, count: usize) -> u64 {
    let mut appender = DiskAppender { file_size: 0, max_disk_bytes: max_disk };
    let mut file: u64 = 0;
    for _ in 0..count {
        file += chunk;
        if appender.written(chunk) {
            let r = appender.rotation(file);
            assert_eq!(r.start_offset + r.to_keep, file);
            file = r.to_keep;
            appender.rotated(r);
        }
        assert_eq!(appender.file_size, file);
    }
    file
}

#[test]
fn disk_rotation_trims_file() {
    let max_disk = 32 * 1024u64;

    // Three times what may stay on disk.
    let len = size_after_chunks(max_disk, 8 * 1024, 12);

    // One chunk above the cap is acceptable, since the file is cut back after
    // the write that brings it there.
    assert!(
        len <= max_disk + 8 * 1024,
        "log should be ≤ max + 1 chunk, got {} (max {})",
        len,
        max_disk
    );
}

#[test]
fn cold_start_preloads_disk_tail() {
    let payload: Vec<u8> = (0..5000).map(|i| (i % 256) as u8).collect();

    // The ring is smaller than the file.
    let want = preload_size(payload.len() as u64, 4096);
    assert_eq!(want, 4096);
    let log = ByteLog::new(4096, payload.len() as u64, &payload[payload.len() - want..]);

    let (snap, hwm) = log.ring_snapshot();
    assert_eq!(snap.len(), 4096, "ring should be pre-loaded to capacity");
    assert_eq!(hwm, 5000, "cursor should equal file size after preload");
    // The snapshot is the last 4096 bytes of the payload.
    assert_eq!(&snap[..], &payload[payload.len() - 4096..]);
}

#[test]
fn a_short_file_is_preloaded_whole() {
    assert_eq!(preload_size(3, 4096), 3);
    let mut log = ByteLog::new(4096, 3, b"abc");
    log.append(b"d");
    let (snap, hwm) = log.ring_snapshot();
    assert_eq!(&snap[..], b"abcd");
    assert_eq!(hwm, 4);
}

#[test]
fn a_ring_without_room_still_counts() {
    let mut log = ByteLog::new(0, 0, &[]);
    log.append(b"abc");
    assert_eq!(log.ring_snapshot(), (Vec::new(), 3));
}

#[test]
fn a_cut_keeps_half_of_the_allowed_size() {
    let a = DiskAppender { file_size: 0, max_disk_bytes: 100 };
    assert_eq!(a.rotation(120), Rotation { start_offset: 70, to_keep: 50 });
    assert_eq!(a.rotation(30), Rotation { start_offset: 0, to_keep: 30 });
}

#[test]
fn a_log_file_stays_below_the_cap() {
    for chunk in [1u64, 7, 50, 99, 100, 101] {
        let size = size_after_chunks(100, chunk, 40);
        assert!(size < 100, "chunks of {} end at {}", chunk, size);
    }
}
