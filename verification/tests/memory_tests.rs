use warframe_api_helper::memory::{
    linux_region_label, linux_region_wanted, windows_region_label, windows_region_wanted,
    MemoryScanner, RegionScan, MAX_REGION_SIZE, MEM_COMMIT, PAGE_EXECUTE_READ, PAGE_READWRITE,
};
use warframe_api_helper::pattern::PatternMatcher;

fn scanner() -> MemoryScanner {
    MemoryScanner::new(&PatternMatcher::PATTERN)
}

fn region(parts: &[&[u8]]) -> Vec<u8> {
    parts.concat()
}

#[test]
fn search_finds_complete_match_with_address_and_context() {
    let data = region(&[b"\x00\x01junk", b"?accountId=0123456789abcdef01234567&nonce=42", b"\x00rest"]);
    let ms = scanner().search_in_data(&data, 0x1000, "1000-2000", false);
    assert_eq!(ms.len(), 1);
    assert_eq!(ms[0].string, "?accountId=0123456789abcdef01234567&nonce=42");
    assert_eq!(ms[0].address, Some(0x1000 + 6));
    assert_eq!(ms[0].region.as_deref(), Some("1000-2000"));
    assert_eq!(ms[0].context, data);
}

#[test]
fn search_skips_occurrences_without_nonce() {
    let data = region(&[b"?accountId=1111\x00", b"?accountId=0123456789abcdef01234567&nonce=7"]);
    let ms = scanner().search_in_data(&data, 0, "r", false);
    assert_eq!(ms.len(), 1);
    assert_eq!(ms[0].address, Some(16));
}

#[test]
fn stop_at_first_complete_match() {
    let one = b"?accountId=0123456789abcdef01234567&nonce=1\x00";
    let two = b"?accountId=abcdefabcdefabcdefabcdef&nonce=2\x00";
    let data = region(&[one, two]);
    let all = scanner().search_in_data(&data, 0, "r", false);
    assert_eq!(all.len(), 2);
    let first = scanner().search_in_data(&data, 0, "r", true);
    assert_eq!(first.len(), 1);
    assert_eq!(first[0].string, "?accountId=0123456789abcdef01234567&nonce=1");
}

#[test]
fn stop_mode_keeps_incomplete_matches_before_the_complete_one() {
    let a = b"?accountId=12&nonce=\x00";
    let b = b"?accountId=0123456789abcdef01234567&nonce=1\x00";
    let c = b"?accountId=abcdefabcdefabcdefabcdef&nonce=2\x00";
    let data = region(&[a, b, c]);
    let ms = scanner().search_in_data(&data, 0, "r", true);
    assert_eq!(ms.len(), 2);
    assert_eq!(ms[0].string, "?accountId=12&nonce=");
}

#[test]
fn overlapping_search_positions_advance_by_one() {
    let data = b"?accountId=?accountId=0123456789abcdef01234567&nonce=5".to_vec();
    let ms = scanner().search_in_data(&data, 100, "r", false);
    assert_eq!(ms.len(), 2);
    assert_eq!(ms[0].address, Some(100));
    assert_eq!(ms[1].address, Some(111));
}

#[test]
fn context_is_clipped_to_fifty_before_and_hundred_after() {
    let mut data = vec![b'.'; 60];
    data.extend_from_slice(b"?accountId=0123456789abcdef01234567&nonce=5");
    data.extend(vec![b'.'; 200]);
    let s = scanner();
    let ctx = s.extract_context(&data, 60);
    assert_eq!(ctx, data[10..60 + 11 + 100].to_vec());
}

#[test]
fn process_match_requires_both_markers() {
    let s = scanner();
    let data = b"?accountId=abc".to_vec();
    assert!(s.process_match(&data, 0, 0, "r").is_none());
    let data = b"?accountId=abc&nonce=1".to_vec();
    let m = s.process_match(&data, 0, 5, "r").unwrap();
    assert_eq!(m.address, Some(5));
}

#[test]
fn region_scan_stops_after_complete_match() {
    let s = scanner();
    let mut scan = RegionScan::new(true);
    assert!(!scan.add_region(&s, b"nothing here", 0, "a"));
    assert!(scan.add_region(&s, b"?accountId=0123456789abcdef01234567&nonce=9", 100, "b"));
    let ms = scan.into_matches();
    assert_eq!(ms.len(), 1);
    assert_eq!(ms[0].address, Some(100));
}

#[test]
fn region_scan_collects_all_regions_without_stop() {
    let s = scanner();
    let mut scan = RegionScan::new(false);
    assert!(!scan.add_region(&s, b"?accountId=0123456789abcdef01234567&nonce=9", 0, "a"));
    assert!(!scan.add_region(&s, b"?accountId=abcdefabcdefabcdefabcdef&nonce=1", 50, "b"));
    assert_eq!(scan.into_matches().len(), 2);
}

#[test]
fn linux_region_filter() {
    assert!(linux_region_wanted(true, 0x1000, 0x2000));
    assert!(!linux_region_wanted(false, 0x1000, 0x2000));
    assert!(!linux_region_wanted(true, 0x1000, 0x1000));
    assert!(linux_region_wanted(true, 0, MAX_REGION_SIZE as u64));
    assert!(!linux_region_wanted(true, 0, MAX_REGION_SIZE as u64 + 1));
}

#[test]
fn windows_region_filter() {
    assert!(windows_region_wanted(MEM_COMMIT, PAGE_READWRITE, 4096));
    assert!(windows_region_wanted(MEM_COMMIT, PAGE_EXECUTE_READ, 4096));
    assert!(!windows_region_wanted(0x2000, PAGE_READWRITE, 4096));
    assert!(!windows_region_wanted(MEM_COMMIT, 0x01, 4096));
    assert!(!windows_region_wanted(MEM_COMMIT, PAGE_READWRITE, MAX_REGION_SIZE));
}

#[test]
fn region_labels_are_hex() {
    assert_eq!(linux_region_label(0x7f00, 0x7fff), "7f00-7fff");
    assert_eq!(linux_region_label(0, 255), "0-ff");
    assert_eq!(windows_region_label(0x10, 0x10), "0x10-0x20");
}

#[test]
fn stopping_scan_is_a_prefix_of_the_full_scan() {
    let a = b"?accountId=12&nonce=\x00";
    let b = b"?accountId=0123456789abcdef01234567&nonce=1\x00";
    let c = b"?accountId=abcdefabcdefabcdefabcdef&nonce=2\x00";
    let data = region(&[a, b, c]);
    let full = scanner().search_in_data(&data, 7, "r", false);
    let cut = scanner().search_in_data(&data, 7, "r", true);
    assert_eq!(full.len(), 3);
    assert_eq!(cut.len(), 2);
    for (x, y) in cut.iter().zip(full.iter()) {
        assert_eq!(x.string, y.string);
        assert_eq!(x.address, y.address);
    }
}
