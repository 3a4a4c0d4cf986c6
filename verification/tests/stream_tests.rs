use rowevents::stream::FileStream;
use rowevents::stream::LogFile;

fn table(entries: &[(&str, Vec<u8>)]) -> Vec<LogFile> {
    entries
        .iter()
        .map(|(name, data)| LogFile { name: name.as_bytes().to_vec(), data: data.clone() })
        .collect()
}

#[test]
fn missing_file_does_not_open() {
    let files = table(&[("log.001", vec![1, 2, 3])]);
    assert!(FileStream::from_file(files, &b"log.002".to_vec()).is_none());
}

#[test]
fn reads_hand_out_the_file_bytes_in_order() {
    let data: Vec<u8> = (0u8..20).collect();
    let files = table(&[("log.001", data.clone())]);
    let mut s = FileStream::from_file(files, &b"log.001".to_vec()).unwrap();
    assert_eq!(s.read(5), (0u8..5).collect::<Vec<u8>>());
    assert_eq!(s.read(3), (5u8..8).collect::<Vec<u8>>());
    assert_eq!(s.read(12), (8u8..20).collect::<Vec<u8>>());
}

#[test]
fn exhaustion_gives_one_short_read_then_empty_forever() {
    let data: Vec<u8> = (0u8..10).collect();
    let files = table(&[("log.001", data.clone())]);
    let mut s = FileStream::from_file(files, &b"log.001".to_vec()).unwrap();
    assert_eq!(s.read(4), (0u8..4).collect::<Vec<u8>>());
    // Asking for more than remains: a short slice, exactly once.
    assert_eq!(s.read(9), (4u8..10).collect::<Vec<u8>>());
    // From now on, empty on every call.
    assert_eq!(s.read(1), Vec::<u8>::new());
    assert_eq!(s.read(100), Vec::<u8>::new());
    assert_eq!(s.read(0), Vec::<u8>::new());
}

#[test]
fn eviction_never_changes_observed_reads() {
    let data: Vec<u8> = (0..997u32).map(|i| (i % 251) as u8).collect();
    let sizes = [7usize, 1, 19, 3, 250, 11, 0, 40, 900, 5, 5];
    let mut small = FileStream::from_file_with_threshold(
        table(&[("log.001", data.clone())]),
        &b"log.001".to_vec(),
        13,
    )
    .unwrap();
    let mut large = FileStream::from_file_with_threshold(
        table(&[("log.001", data.clone())]),
        &b"log.001".to_vec(),
        1000000,
    )
    .unwrap();
    for n in sizes {
        let a = small.read(n);
        let b = large.read(n);
        assert_eq!(a, b);
        // The retained window stays within the threshold plus one
        // pending read.
        assert!(small.content.len() <= small.threshold + n);
    }
}

#[test]
fn preamble_consumes_four_bytes() {
    let files = table(&[("log.001", vec![0xfe, b'b', b'i', b'n', 9, 8, 7])]);
    let mut s = FileStream::from_file(files, &b"log.001".to_vec()).unwrap();
    assert!(s.read_binlog_file_header());
    assert_eq!(s.read(3), vec![9, 8, 7]);
}

#[test]
fn short_preamble_is_reported() {
    let files = table(&[("log.001", vec![0xfe, b'b'])]);
    let mut s = FileStream::from_file(files, &b"log.001".to_vec()).unwrap();
    assert!(!s.read_binlog_file_header());
}

#[test]
fn rotation_switches_to_the_successor_file() {
    let files = table(&[("log.001", vec![1, 2]), ("log.002", vec![0, 0, 0, 0, 42, 43])]);
    let mut s = FileStream::from_file(files, &b"log.001".to_vec()).unwrap();
    assert!(s.read_next_binlog_file());
    assert!(s.read_binlog_file_header());
    assert_eq!(s.read(2), vec![42, 43]);
}

#[test]
fn failed_rotation_ends_the_stream() {
    let files = table(&[("log.001", vec![1, 2])]);
    let mut s = FileStream::from_file(files, &b"log.001".to_vec()).unwrap();
    assert!(!s.read_next_binlog_file());
    assert_eq!(s.read(1), Vec::<u8>::new());
}
