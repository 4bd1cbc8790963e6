use prost::Message;
use zarja::scanner::{find_subsequence, ScanResult, ScanStrategy, Scanner, ScannerConfig};

#[test]
fn test_find_subsequence() {
    let data = b"hello.proto.world";
    assert_eq!(find_subsequence(data, b".proto"), Some(5));
    assert_eq!(find_subsequence(data, b"world"), Some(12));
    assert_eq!(find_subsequence(data, b"missing"), None);
}

#[test]
fn test_scanner_config_builder() {
    let config = ScannerConfig::new()
        .max_results(10)
        .min_descriptor_size(20)
        .max_descriptor_size(1000);

    assert_eq!(config.max_results, 10);
    assert_eq!(config.min_descriptor_size, 20);
    assert_eq!(config.max_descriptor_size, 1000);
}

#[test]
fn test_empty_input() {
    let scanner = Scanner::new();
    let results = scanner.scan(&[]).unwrap();
    assert!(results.is_empty());
}

#[test]
fn test_no_proto_suffix() {
    let scanner = Scanner::new();
    let data = b"this is just some random data without any protobuf content";
    let results = scanner.scan(data).unwrap();
    assert!(results.is_empty());
}

fn record(name: &str, package: &str) -> Vec<u8> {
    let mut out = vec![0x0A, name.len() as u8];
    out.extend_from_slice(name.as_bytes());
    out.push(0x12);
    out.push(package.len() as u8);
    out.extend_from_slice(package.as_bytes());
    out
}

fn ranges(results: &[ScanResult]) -> Vec<(usize, usize)> {
    results.iter().map(|r| (r.range.start, r.range.end)).collect()
}

#[test]
fn back_to_back_descriptors() {
    let a = record("x.proto", "pa");
    let b = record("y.proto", "pb");
    let mut buf = a.clone();
    buf.extend_from_slice(&b);
    let results = Scanner::new().scan(&buf).unwrap();
    assert_eq!(ranges(&results), vec![(0, a.len()), (a.len(), a.len() + b.len())]);
    let da = prost_types::FileDescriptorProto::decode(results[0].as_bytes()).unwrap();
    let db = prost_types::FileDescriptorProto::decode(results[1].as_bytes()).unwrap();
    assert_eq!(da.name(), "x.proto");
    assert_eq!(db.name(), "y.proto");
    assert_eq!(da.package(), "pa");
    assert_eq!(db.package(), "pb");
}

#[test]
fn descriptor_embedded_in_noise() {
    let rec = record("dir/some_file.proto", "my.pkg");
    let mut buf = vec![0xFFu8, 0x00, 0x13, 0x37, 0x0A];
    let start = buf.len();
    buf.extend_from_slice(&rec);
    buf.extend_from_slice(&[0x00, 0x00, 0xFF]);
    let results = Scanner::new().scan(&buf).unwrap();
    assert_eq!(ranges(&results), vec![(start, start + rec.len())]);
    assert_eq!(results[0].data, rec);
    assert_eq!(results[0].as_bytes(), &buf[start..start + rec.len()]);
}

#[test]
fn results_respect_size_bounds_and_order() {
    let mut buf = Vec::new();
    for (i, name) in ["a.proto", "bb.proto", "ccc.proto"].iter().enumerate() {
        buf.extend_from_slice(&[0x00, 0xFF]);
        buf.extend_from_slice(&record(name, &"p".repeat(i + 1)));
    }
    let results = Scanner::new().scan(&buf).unwrap();
    assert_eq!(results.len(), 3);
    for w in results.windows(2) {
        assert!(w[0].range.end <= w[1].range.start);
    }
    for r in &results {
        assert_eq!(r.data.as_slice(), &buf[r.range.clone()]);
        assert!(r.data.len() >= 10);
    }
    let small = Scanner::with_config(ScannerConfig::new().min_descriptor_size(15)).scan(&buf).unwrap();
    assert_eq!(small.len(), 1);
    let tight = Scanner::with_config(ScannerConfig::new().max_descriptor_size(14)).scan(&buf).unwrap();
    assert_eq!(tight.len(), 2);
}

#[test]
fn result_cap_is_obeyed() {
    let mut buf = Vec::new();
    for name in ["a.proto", "b.proto", "c.proto", "d.proto"] {
        buf.extend_from_slice(&record(name, "pkg"));
    }
    let all = Scanner::new().scan(&buf).unwrap();
    assert_eq!(all.len(), 4);
    let two = Scanner::with_config(ScannerConfig::new().max_results(2)).scan(&buf).unwrap();
    assert_eq!(ranges(&two), ranges(&all[..2]));
}

#[test]
fn scanning_twice_gives_the_same_results() {
    let mut buf = record("x.proto", "one");
    buf.extend_from_slice(b"junk.proto junk");
    buf.extend_from_slice(&record("y.proto", "two"));
    let first = Scanner::new().scan(&buf).unwrap();
    let second = Scanner::new().scan(&buf).unwrap();
    assert_eq!(ranges(&first), ranges(&second));
    for (a, b) in first.iter().zip(second.iter()) {
        assert_eq!(a.data, b.data);
    }
}

#[test]
fn arbitrary_bytes_do_not_fail() {
    let mut state: u32 = 12345;
    for len in [0usize, 1, 7, 64, 1000, 5000] {
        let mut buf = Vec::with_capacity(len);
        for i in 0..len {
            state = state.wrapping_mul(1_103_515_245).wrapping_add(12_345);
            let b = (state >> 16) as u8;
            buf.push(if i % 97 == 0 { b'.' } else { b });
        }
        if len > 20 {
            buf[10..16].copy_from_slice(b".proto");
        }
        let results = Scanner::new().scan(&buf).unwrap();
        for r in &results {
            assert_eq!(r.data.as_slice(), &buf[r.range.clone()]);
        }
    }
}

#[test]
fn scan_through_trait() {
    let buf = record("x.proto", "pkg");
    let scanner = Scanner::new();
    let strategy: &dyn ScanStrategy = &scanner;
    assert_eq!(strategy.scan(&buf).unwrap().len(), 1);
}

#[test]
fn later_record_never_reaches_into_earlier_one() {
    let mut buf = vec![0x0A, 0x12, 0x0A, 0x08];
    buf.extend_from_slice(b"ab.proto");
    buf.push(0x07);
    buf.extend_from_slice(b"b.proto");
    assert_eq!(buf.len(), 20);
    let results = Scanner::new().scan(&buf).unwrap();
    for w in results.windows(2) {
        assert!(w[0].range.end <= w[1].range.start);
        assert!(w[0].range.start < w[1].range.start);
    }
    assert_eq!(ranges(&results), vec![(2, 12)]);
}

#[test]
fn name_containing_proto_before_its_end_is_found() {
    let rec = record("a.protos/b.proto", "p");
    assert_eq!(&rec[..2], &[0x0A, 0x10]);
    let results = Scanner::new().scan(&rec).unwrap();
    assert_eq!(ranges(&results), vec![(0, rec.len())]);
    assert_eq!(results[0].data, rec);
}

#[test]
fn record_after_skipped_suffix_and_previous_record() {
    let first = record("x.proto", "one");
    let second = record("dir.proto/y.proto", "two");
    let mut buf = first.clone();
    buf.extend_from_slice(&second);
    let results = Scanner::new().scan(&buf).unwrap();
    assert_eq!(
        ranges(&results),
        vec![(0, first.len()), (first.len(), first.len() + second.len())]
    );
}
