use rowevents::events::Event;
use rowevents::events::OpenError;
use rowevents::events::StreamError;
use rowevents::events::DELETE_ROWS_EVENT2;
use rowevents::events::HEADER_SIZE;
use rowevents::events::QUERY_EVENT;
use rowevents::events::ROTATE_EVENT;
use rowevents::events::STOP_EVENT;
use rowevents::events::TABLE_MAP_EVENT;
use rowevents::events::WRITE_ROWS_EVENT2;
use rowevents::events::XID_EVENT;
use rowevents::reader::FileReader;
use rowevents::stream::FileStream;
use rowevents::stream::LogFile;

const MAGIC: [u8; 4] = [0xfe, b'b', b'i', b'n'];

fn le32(v: u32) -> [u8; 4] {
    v.to_le_bytes()
}

/// One whole event: the nineteen-byte header, then the payload.
fn event(event_type: u8, payload: &[u8]) -> Vec<u8> {
    let mut out = Vec::new();
    out.extend_from_slice(&le32(1111));
    out.push(event_type);
    out.extend_from_slice(&le32(7));
    out.extend_from_slice(&le32((HEADER_SIZE + payload.len()) as u32));
    out.extend_from_slice(&le32(0));
    out.extend_from_slice(&[0, 0]);
    out.extend_from_slice(payload);
    out
}

fn table_map_payload(table_id: u64, db: &str, tbl: &str, cols: &[u8]) -> Vec<u8> {
    let mut p = Vec::new();
    p.extend_from_slice(&table_id.to_le_bytes()[0..6]);
    p.extend_from_slice(&[0, 0]);
    p.push(db.len() as u8);
    p.extend_from_slice(db.as_bytes());
    p.push(tbl.len() as u8);
    p.extend_from_slice(tbl.as_bytes());
    p.extend_from_slice(cols);
    p
}

fn rotate_payload(position: u64, next: &str) -> Vec<u8> {
    let mut p = Vec::new();
    p.extend_from_slice(&position.to_le_bytes());
    p.extend_from_slice(next.as_bytes());
    p
}

fn write_rows_payload(table_id: u64, rows: &[u8]) -> Vec<u8> {
    let mut p = Vec::new();
    p.extend_from_slice(&table_id.to_le_bytes()[0..6]);
    p.extend_from_slice(rows);
    p
}

fn log_file(name: &str, events: &[Vec<u8>]) -> LogFile {
    let mut data = MAGIC.to_vec();
    for e in events {
        data.extend_from_slice(e);
    }
    LogFile { name: name.as_bytes().to_vec(), data }
}

fn reader_over(files: Vec<LogFile>, name: &str) -> FileReader {
    FileReader::new(files, &name.as_bytes().to_vec()).unwrap()
}

#[test]
fn missing_initial_file_is_an_open_error() {
    match FileReader::new(vec![], &b"log.001".to_vec()) {
        Err(err) => assert_eq!(err, OpenError::FileNotFound),
        Ok(_) => panic!("opening a missing file must fail"),
    }
}

#[test]
fn header_fields_come_back_decoded() {
    let files = vec![log_file("log.001", &[event(XID_EVENT, &9u64.to_le_bytes())])];
    let mut r = reader_over(files, "log.001");
    let (h, e) = r.read_event().unwrap();
    assert_eq!(h.timestamp, 1111);
    assert_eq!(h.event_type, XID_EVENT);
    assert_eq!(h.server_id, 7);
    assert_eq!(h.event_length as usize, HEADER_SIZE + 8);
    assert_eq!(e, Event::Xid { transaction_id: 9 });
}

#[test]
fn excluded_table_map_skips_exactly_the_next_event() {
    let tm = event(TABLE_MAP_EVENT, &table_map_payload(5, "test", "users", &[1, 2]));
    let wr = event(WRITE_ROWS_EVENT2, &write_rows_payload(5, &[10, 20, 30]));
    let xid = event(XID_EVENT, &77u64.to_le_bytes());
    let files = vec![log_file("log.001", &[tm, wr.clone(), xid])];
    let mut r = reader_over(files, "log.001");
    r.add_excluded_db_table(&b"test.users".to_vec());

    let (_, e1) = r.read_event().unwrap();
    assert!(matches!(e1, Event::TableMap { .. }));
    assert!(r.skip_next_event());

    // The row event is forced opaque: its payload comes back raw, with
    // length exactly event_length minus the header size.
    let (h2, e2) = r.read_event().unwrap();
    match e2 {
        Event::Unknown { raw } => {
            assert_eq!(raw.len(), h2.event_length as usize - HEADER_SIZE);
            assert_eq!(raw, wr[HEADER_SIZE..].to_vec());
        }
        other => panic!("expected an opaque event, got {:?}", other),
    }
    // The skip is consumed: false immediately after.
    assert!(!r.skip_next_event());

    // The event after that decodes normally again.
    let (_, e3) = r.read_event().unwrap();
    assert_eq!(e3, Event::Xid { transaction_id: 77 });
}

#[test]
fn wildcard_exclusion_matches_table_family() {
    let tm = event(TABLE_MAP_EVENT, &table_map_payload(5, "shop", "orders_2024", &[]));
    let wr = event(WRITE_ROWS_EVENT2, &write_rows_payload(5, &[1]));
    let files = vec![log_file("log.001", &[tm, wr])];
    let mut r = reader_over(files, "log.001");
    r.add_excluded_db_table(&b"shop.orders_*".to_vec());
    r.read_event().unwrap();
    assert!(r.skip_next_event());
    let (_, e2) = r.read_event().unwrap();
    assert!(matches!(e2, Event::Unknown { .. }));
}

#[test]
fn non_matching_table_map_leaves_next_event_typed() {
    let tm = event(TABLE_MAP_EVENT, &table_map_payload(5, "test", "users", &[]));
    let wr = event(WRITE_ROWS_EVENT2, &write_rows_payload(5, &[10, 20]));
    let files = vec![log_file("log.001", &[tm, wr])];
    let mut r = reader_over(files, "log.001");
    r.add_excluded_db_table(&b"other.users".to_vec());

    let (_, e1) = r.read_event().unwrap();
    match e1 {
        Event::TableMap { table_id, db_name, table_name, column_defs } => {
            assert_eq!(table_id, 5);
            assert_eq!(db_name, b"test".to_vec());
            assert_eq!(table_name, b"users".to_vec());
            assert_eq!(column_defs, Vec::<u8>::new());
        }
        other => panic!("expected a table map, got {:?}", other),
    }
    assert!(!r.skip_next_event());

    let (_, e2) = r.read_event().unwrap();
    assert_eq!(e2, Event::WriteRows { table_id: 5, rows_data: vec![10, 20] });
}

#[test]
fn empty_allow_list_accepts_every_type_code() {
    // Type 0 and an out-of-range code both reach the full decoder and
    // pass through as typed `Unknown` events, not filtered skips.
    let e0 = event(0, &[1, 2, 3]);
    let e200 = event(200, &[4, 5]);
    let files = vec![log_file("log.001", &[e0, e200])];
    let mut r = reader_over(files, "log.001");
    let (_, a) = r.read_event().unwrap();
    assert_eq!(a, Event::Unknown { raw: vec![1, 2, 3] });
    let (_, b) = r.read_event().unwrap();
    assert_eq!(b, Event::Unknown { raw: vec![4, 5] });
}

#[test]
fn allow_list_diverts_other_types_to_the_opaque_path() {
    let xid = event(XID_EVENT, &3u64.to_le_bytes());
    let q = event(QUERY_EVENT, b"insert into t values (1)");
    let files = vec![log_file("log.001", &[xid, q])];
    let mut r = reader_over(files, "log.001");
    r.add_concerned_event(QUERY_EVENT);
    let (_, a) = r.read_event().unwrap();
    assert!(matches!(a, Event::Unknown { .. }));
    let (_, b) = r.read_event().unwrap();
    assert_eq!(b, Event::Query { raw: b"insert into t values (1)".to_vec() });
}

#[test]
fn rotation_continues_into_the_successor_file() {
    let q = event(QUERY_EVENT, b"create table t (a int)");
    let rot = event(ROTATE_EVENT, &rotate_payload(4, "log.002"));
    let xid = event(XID_EVENT, &5u64.to_le_bytes());
    let del = event(DELETE_ROWS_EVENT2, &write_rows_payload(9, &[1]));
    let files = vec![log_file("log.001", &[q, rot]), log_file("log.002", &[xid, del])];
    let mut r = reader_over(files, "log.001");

    let (_, e1) = r.read_event().unwrap();
    assert!(matches!(e1, Event::Query { .. }));
    let (_, e2) = r.read_event().unwrap();
    assert_eq!(
        e2,
        Event::Rotate { position: 4, next_filename: b"log.002".to_vec() }
    );
    // The stream continues seamlessly in log.002, its preamble consumed
    // exactly once: the next event header starts right after the magic.
    let (_, e3) = r.read_event().unwrap();
    assert_eq!(e3, Event::Xid { transaction_id: 5 });
    let (_, e4) = r.read_event().unwrap();
    assert_eq!(e4, Event::DeleteRows { table_id: 9, rows_data: vec![1] });
}

#[test]
fn missing_successor_is_a_rotation_error() {
    let rot = event(ROTATE_EVENT, &rotate_payload(4, "log.002"));
    let files = vec![log_file("log.001", &[rot])];
    let mut r = reader_over(files, "log.001");
    let (_, e1) = r.read_event().unwrap();
    assert!(matches!(e1, Event::Rotate { .. }));
    assert_eq!(r.read_event().unwrap_err(), StreamError::RotationError);
}

#[test]
fn exhaustion_after_stop_is_a_clean_end() {
    let stop = event(STOP_EVENT, &[]);
    let files = vec![log_file("log.001", &[stop])];
    let mut r = reader_over(files, "log.001");
    let (h, _) = r.read_event().unwrap();
    assert_eq!(h.event_type, STOP_EVENT);
    assert_eq!(r.read_event().unwrap_err(), StreamError::EndOfLog);
    // And it stays that way.
    assert_eq!(r.read_event().unwrap_err(), StreamError::EndOfLog);
}

#[test]
fn exhaustion_without_rotate_or_stop_is_dangling() {
    let xid = event(XID_EVENT, &1u64.to_le_bytes());
    let files = vec![log_file("log.001", &[xid])];
    let mut r = reader_over(files, "log.001");
    r.read_event().unwrap();
    assert_eq!(r.read_event().unwrap_err(), StreamError::DanglingEndOfLog);
}

#[test]
fn short_header_is_truncated_header() {
    let mut data = MAGIC.to_vec();
    data.extend_from_slice(&[1, 2, 3, 4, 5]);
    let files = vec![LogFile { name: b"log.001".to_vec(), data }];
    let mut r = reader_over(files, "log.001");
    assert_eq!(r.read_event().unwrap_err(), StreamError::TruncatedHeader);
}

#[test]
fn declared_length_below_header_size_is_invalid() {
    let mut bad = event(XID_EVENT, &[]);
    bad[9..13].copy_from_slice(&le32(5));
    let files = vec![log_file("log.001", &[bad])];
    let mut r = reader_over(files, "log.001");
    assert_eq!(r.read_event().unwrap_err(), StreamError::InvalidEventLength);
}

#[test]
fn short_payload_is_truncated_event() {
    let mut data = MAGIC.to_vec();
    let mut ev = event(QUERY_EVENT, b"select 1");
    ev.truncate(ev.len() - 3);
    data.extend_from_slice(&ev);
    let files = vec![LogFile { name: b"log.001".to_vec(), data }];
    let mut r = reader_over(files, "log.001");
    assert_eq!(r.read_event().unwrap_err(), StreamError::TruncatedEvent);
}

#[test]
fn undersized_typed_payload_is_malformed() {
    // A rotate event needs at least its eight-byte position.
    let rot = event(ROTATE_EVENT, &[1, 2, 3]);
    let files = vec![log_file("log.001", &[rot])];
    let mut r = reader_over(files, "log.001");
    assert_eq!(r.read_event().unwrap_err(), StreamError::MalformedPayload);
}

#[test]
fn next_wraps_read_event() {
    let xid = event(XID_EVENT, &8u64.to_le_bytes());
    let files = vec![log_file("log.001", &[xid])];
    let mut r = reader_over(files, "log.001");
    let (_, e) = r.next().unwrap();
    assert_eq!(e, Event::Xid { transaction_id: 8 });
    assert!(r.next().is_none());
}

#[test]
fn is_concerned_and_is_excluded_report_configuration() {
    let files = vec![log_file("log.001", &[])];
    let mut r = reader_over(files, "log.001");
    assert!(r.is_concerned_event(0));
    assert!(r.is_concerned_event(255));
    r.add_concerned_event(XID_EVENT);
    assert!(r.is_concerned_event(XID_EVENT));
    assert!(!r.is_concerned_event(QUERY_EVENT));

    assert!(!r.is_excluded(&b"test".to_vec(), &b"users".to_vec()));
    r.add_excluded_db_table(&b"test.*".to_vec());
    assert!(r.is_excluded(&b"test".to_vec(), &b"users".to_vec()));
    assert!(!r.is_excluded(&b"prod".to_vec(), &b"users".to_vec()));
}

#[test]
fn set_skip_next_event_forces_the_opaque_path() {
    let xid = event(XID_EVENT, &2u64.to_le_bytes());
    let files = vec![log_file("log.001", &[xid])];
    let mut r = reader_over(files, "log.001");
    r.set_skip_next_event(true);
    let (_, e) = r.read_event().unwrap();
    assert_eq!(e, Event::Unknown { raw: 2u64.to_le_bytes().to_vec() });
    assert!(!r.skip_next_event());
}

#[test]
fn tiny_eviction_threshold_changes_no_decoded_event() {
    let tm = event(TABLE_MAP_EVENT, &table_map_payload(5, "test", "users", &[9]));
    let wr = event(WRITE_ROWS_EVENT2, &write_rows_payload(5, &[10, 20]));
    let xid = event(XID_EVENT, &77u64.to_le_bytes());
    let file = log_file("log.001", &[tm, wr, xid]);

    let run = |threshold: usize| -> Vec<Event> {
        let mut stream = FileStream::from_file_with_threshold(
            vec![LogFile { name: file.name.clone(), data: file.data.clone() }],
            &b"log.001".to_vec(),
            threshold,
        )
        .unwrap();
        stream.read_binlog_file_header();
        let mut r = FileReader {
            stream,
            skip_next_event: false,
            concerned_events: Vec::new(),
            excluded_db_table_list: Vec::new(),
            after_rotate: false,
            rotation_failed: false,
        };
        let mut out = Vec::new();
        while let Ok((_, e)) = r.read_event() {
            out.push(e);
        }
        out
    };

    let with_tiny_window = run(3);
    let with_default_window = run(1000000);
    assert_eq!(with_tiny_window, with_default_window);
    assert_eq!(with_tiny_window.len(), 3);
}
