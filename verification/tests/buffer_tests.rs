use sentinel_agent::buffer::compaction::{count_log_files, needs_compaction, plan_compaction, total_log_size, FileSize};
use sentinel_agent::buffer::meta::WalMeta;
use sentinel_agent::buffer::record::{decode_segment, DecodeError, Record};
use sentinel_agent::buffer::wal::{is_log_file, parse_segment_index, segment_file_name, SegmentListing, WalIndex};
use sentinel_agent::buffer::wal_metrics::compute_stats;

fn rec(id: u64, data: &[u8]) -> Record {
    Record { id, data: data.to_vec() }
}

/// Appends `data` to an in-memory log: the index assigns the id and decides
/// rotation from the current segment's size; the record goes into the
/// current segment's bytes.
fn append(index: &mut WalIndex, segments: &mut Vec<Vec<u8>>, data: &[u8]) -> u64 {
    let size = segments.last().map(|s| s.len() as u64);
    let (id, rotate) = index.begin_append(size);
    if rotate || segments.is_empty() {
        segments.push(Vec::new());
    }
    let r = rec(id, data);
    segments.last_mut().unwrap().extend_from_slice(&r.encode());
    id
}

fn read_back(segments: &[Vec<u8>]) -> Vec<Record> {
    let mut all = Vec::new();
    for s in segments {
        all.extend(decode_segment(s).unwrap());
    }
    all
}

fn fresh_index(max: u64) -> WalIndex {
    WalIndex::recover(&WalMeta::empty(), &Vec::new(), max)
}

#[test]
fn empty_meta_defaults() {
    let m = WalMeta::empty();
    assert_eq!(m.head_seq, 0);
    assert_eq!(m.tail_seq, 0);
    assert_eq!(m.unacked_count(), 0);
}

#[test]
fn unacked_count_calculation() {
    let mut m = WalMeta::empty();
    m.head_seq = 5;
    m.tail_seq = 15;
    m.acked_ids = vec![5, 7, 9];
    assert_eq!(m.unacked_count(), 7);
}

#[test]
fn unacked_count_saturates_at_zero() {
    let m = WalMeta { head_seq: 0, tail_seq: 2, last_segment: 0, acked_ids: vec![0, 1, 2, 3] };
    assert_eq!(m.unacked_count(), 0);
}

#[test]
fn record_roundtrip() {
    let rec = Record { id: 42, data: b"hello world".to_vec() };
    let encoded = rec.encode();
    let (decoded, used) = Record::decode(&encoded).unwrap();
    assert_eq!(decoded.id, 42);
    assert_eq!(decoded.data, b"hello world");
    assert_eq!(used, encoded.len());
}

#[test]
fn crc_mismatch_detected() {
    let rec = Record { id: 1, data: b"data".to_vec() };
    let mut encoded = rec.encode();
    let last = encoded.len() - 1;
    encoded[last] ^= 0xFF;
    assert!(Record::decode(&encoded).is_err());
    assert_eq!(Record::decode(&encoded).err(), Some(DecodeError::CrcMismatch));
}

#[test]
fn record_frame_layout() {
    let r = rec(7, b"abc");
    let bytes = r.encode();
    assert_eq!(bytes.len(), r.encoded_size());
    assert_eq!(bytes.len(), 16 + 3);
    assert_eq!(&bytes[0..4], &3u32.to_le_bytes());
    assert_eq!(&bytes[4..12], &7u64.to_le_bytes());
    assert_eq!(&bytes[12..15], b"abc");
    assert_eq!(&bytes[15..19], &crc32fast::hash(b"abc").to_le_bytes());
}

#[test]
fn truncated_frame_reported() {
    let bytes = rec(3, b"payload").encode();
    assert_eq!(Record::decode(&bytes[..5]).err(), Some(DecodeError::Truncated));
    assert_eq!(Record::decode(&bytes[..bytes.len() - 1]).err(), Some(DecodeError::Truncated));
}

#[test]
fn write_and_read_segment() {
    let mut seg = Vec::new();
    seg.extend_from_slice(&rec(0, b"first").encode());
    seg.extend_from_slice(&rec(1, b"second").encode());
    let records = decode_segment(&seg).unwrap();
    assert_eq!(records.len(), 2);
    assert_eq!(records[0].data, b"first");
    assert_eq!(records[1].data, b"second");
}

#[test]
fn segment_with_torn_tail_keeps_whole_records() {
    let mut seg = Vec::new();
    seg.extend_from_slice(&rec(0, b"whole").encode());
    let partial = rec(1, b"cut short").encode();
    seg.extend_from_slice(&partial[..10]);
    let records = decode_segment(&seg).unwrap();
    assert_eq!(records.len(), 1);
    assert_eq!(records[0].id, 0);
}

#[test]
fn segment_with_corrupt_record_fails() {
    let mut seg = rec(0, b"x").encode();
    let n = seg.len();
    seg[n - 1] ^= 1;
    assert_eq!(decode_segment(&seg).err(), Some(DecodeError::CrcMismatch));
}

#[test]
fn append_read_roundtrip() {
    let mut wal = fresh_index(1024 * 1024);
    let mut segs = Vec::new();
    let id0 = append(&mut wal, &mut segs, b"record-0");
    let id1 = append(&mut wal, &mut segs, b"record-1");
    let unacked = wal.unacked(read_back(&segs));
    assert_eq!(unacked.len(), 2);
    assert_eq!(unacked[0].0, id0);
    assert_eq!(unacked[1].0, id1);
}

#[test]
fn ack_removes_from_unacked() {
    let mut wal = fresh_index(1024 * 1024);
    let mut segs = Vec::new();
    let id0 = append(&mut wal, &mut segs, b"a");
    let _id1 = append(&mut wal, &mut segs, b"b");
    wal.ack(id0);
    let unacked = wal.unacked(read_back(&segs));
    assert_eq!(unacked.len(), 1);
    assert_eq!(unacked[0].1, b"b");
}

#[test]
fn recovery_after_reopen() {
    let mut wal = fresh_index(1024 * 1024);
    let mut segs = Vec::new();
    append(&mut wal, &mut segs, b"persistent");
    wal.ack(0);
    let meta = wal.to_meta();
    let listing = vec![SegmentListing {
        file_name: "wal-0000000.log".to_string(),
        record_ids: Some(read_back(&segs).iter().map(|r| r.id).collect()),
    }];
    let reopened = WalIndex::recover(&meta, &listing, 1024 * 1024);
    assert_eq!(reopened.unacked(read_back(&segs)).len(), 0);
    assert_eq!(reopened.next_id(), 1);
    assert!(reopened.segment_index() >= 1);
}

#[test]
fn segment_rotation() {
    let mut wal = fresh_index(50);
    let mut segs = Vec::new();
    for i in 0..10 {
        append(&mut wal, &mut segs, format!("record-{}", i).as_bytes());
    }
    assert!(segs.len() > 1, "should have rotated into multiple segments");
    assert_eq!(wal.segment_index() as usize, segs.len() - 1);
}

#[test]
fn recover_continues_after_stored_ids_and_segments() {
    let meta = WalMeta { head_seq: 0, tail_seq: 3, last_segment: 1, acked_ids: vec![0] };
    let listings = vec![
        SegmentListing { file_name: "wal-0000004.log".to_string(), record_ids: Some(vec![8, 9]) },
        SegmentListing { file_name: "wal-0000002.log".to_string(), record_ids: None },
        SegmentListing { file_name: "notes.txt".to_string(), record_ids: Some(vec![100]) },
    ];
    let w = WalIndex::recover(&meta, &listings, 10);
    assert_eq!(w.next_id(), 10);
    assert_eq!(w.segment_index(), 5);
    assert!(w.is_acked(0));
    assert!(!w.is_acked(1));
}

#[test]
fn head_seq_follows_acks() {
    let mut wal = fresh_index(1024);
    assert_eq!(wal.head_seq(), 0);
    for _ in 0..4 {
        wal.begin_append(None);
    }
    wal.ack(0);
    wal.ack(1);
    wal.ack(3);
    assert_eq!(wal.head_seq(), 2);
    let meta = wal.to_meta();
    assert_eq!(meta.head_seq, 2);
    assert_eq!(meta.tail_seq, 4);
    assert_eq!(meta.acked_ids, vec![0, 1, 3]);
    wal.ack(2);
    assert_eq!(wal.head_seq(), 4);
}

#[test]
fn segment_names() {
    assert_eq!(segment_file_name(3), "wal-0000003.log");
    assert_eq!(segment_file_name(12345678), "wal-12345678.log");
    assert_eq!(parse_segment_index("wal-0000042.log"), Some(42));
    assert_eq!(parse_segment_index("wal-.log"), None);
    assert_eq!(parse_segment_index("wal-12x.log"), None);
    assert!(is_log_file("wal-0000000.log"));
    assert!(!is_log_file("wal.meta.json"));
}

fn entry(name: &str, size: u64) -> FileSize {
    FileSize { file_name: name.to_string(), size }
}

#[test]
fn empty_dir_returns_zero_stats() {
    let stats = compute_stats(&Vec::new(), 0);
    assert_eq!(stats.total_size_bytes, 0);
    assert_eq!(stats.segment_count, 0);
    assert_eq!(stats.unacked_count, 0);
}

#[test]
fn counts_only_log_files() {
    let entries = vec![entry("wal-0000000.log", 4), entry("wal.meta.json", 2)];
    let stats = compute_stats(&entries, 5);
    assert_eq!(stats.segment_count, 1);
    assert_eq!(stats.total_size_bytes, 4);
    assert_eq!(stats.unacked_count, 5);
}

#[test]
fn needs_compaction_threshold() {
    let mut wal = fresh_index(1024 * 1024);
    let mut segs = Vec::new();
    for i in 0..50 {
        append(&mut wal, &mut segs, format!("record-{i}").as_bytes());
    }
    let entries: Vec<FileSize> = segs
        .iter()
        .enumerate()
        .map(|(i, s)| entry(&segment_file_name(i as u64), s.len() as u64))
        .collect();
    assert!(needs_compaction(&entries, 100));
    assert!(!needs_compaction(&entries, 1024 * 1024));
}

#[test]
fn log_sizes_ignore_other_files() {
    let entries = vec![entry("wal-0000000.log", 10), entry("x.log.bak", 99), entry("wal-0000001.log", 5)];
    assert_eq!(total_log_size(&entries), 15);
    assert_eq!(count_log_files(&entries), 2);
    assert!(needs_compaction(&entries, 15));
    assert!(!needs_compaction(&entries, 16));
}

fn compacted(records: Vec<Record>, acked: Vec<u64>, tail: u64) -> (Vec<Record>, WalMeta) {
    let meta = WalMeta { head_seq: 0, tail_seq: tail, last_segment: 3, acked_ids: acked };
    let plan = plan_compaction(&meta, records);
    (plan.records, plan.meta)
}

#[test]
fn compact_removes_acked_records() {
    let records = vec![rec(0, b"keep-me"), rec(1, b"ack-me"), rec(2, b"also-keep")];
    let (kept, meta) = compacted(records, vec![1], 3);
    assert!(meta.acked_ids.is_empty());
    assert_eq!(kept.len(), 2);
    assert_eq!(kept[0].data, b"keep-me");
    assert_eq!(kept[1].data, b"also-keep");
    assert_eq!(meta.head_seq, 0);
    assert_eq!(meta.tail_seq, 3);
    assert_eq!(meta.last_segment, 0);
}

#[test]
fn compact_all_acked_produces_empty_wal() {
    let (kept, meta) = compacted(vec![rec(0, b"a"), rec(1, b"b")], vec![0, 1], 2);
    assert_eq!(meta.acked_ids.len(), 0);
    assert_eq!(kept.len(), 0);
    assert_eq!(meta.head_seq, 2);
}

#[test]
fn compact_preserves_record_ordering() {
    let records: Vec<Record> = (0..10).map(|i| rec(i, format!("rec-{i}").as_bytes())).collect();
    let (kept, meta) = compacted(records, vec![1, 3, 5], 10);
    assert_eq!(kept.len(), 7);
    assert_eq!(kept[0].data, b"rec-0");
    assert_eq!(kept[1].data, b"rec-2");
    assert_eq!(kept[2].data, b"rec-4");
    assert_eq!(meta.head_seq, 0);
}

#[test]
fn unacked_are_exactly_the_unacknowledged_records() {
    let mut wal = fresh_index(1 << 20);
    let mut segs = Vec::new();
    let ids: Vec<u64> = (0..6).map(|i| append(&mut wal, &mut segs, format!("r{i}").as_bytes())).collect();
    wal.ack(ids[0]);
    wal.ack(ids[3]);
    wal.ack(ids[3]);
    let pending: Vec<u64> = wal.unacked(read_back(&segs)).into_iter().map(|(id, _)| id).collect();
    assert_eq!(pending, vec![1, 2, 4, 5]);
}

#[test]
fn append_without_rotation_at_last_segment_index() {
    let meta = WalMeta { head_seq: 0, tail_seq: 0, last_segment: u64::MAX, acked_ids: vec![] };
    let mut w = WalIndex::recover(&meta, &Vec::new(), 100);
    assert_eq!(w.segment_index(), u64::MAX);
    assert_eq!(w.begin_append(None), (0, false));
    assert_eq!(w.begin_append(Some(99)), (1, false));
    assert_eq!(w.segment_index(), u64::MAX);
}
