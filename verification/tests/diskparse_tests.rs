use geekmagic_stats::diskparse::{contains_label, extract_bytes, parse_disk_info};

const REPORT: &str = "   Device Identifier:        disk3s1\n   Container Total Space:     494.4 GB (494384795648 Bytes) (exactly 965595304 512-Byte-Units)\n   Container Free Space:      187.2 GB (187188374528 Bytes) (exactly 365602294 512-Byte-Units)\n";

#[test]
fn label_search() {
    assert!(contains_label("Container Total Space: 494 GB", "Total Space:"));
    assert!(!contains_label("Container Free Space: 187 GB", "Total Space:"));
    assert!(contains_label("anything", ""));
    assert!(!contains_label("short", "much longer label"));
    assert!(contains_label("aaab", "aab"));
}

#[test]
fn byte_extraction() {
    assert_eq!(extract_bytes(REPORT, "Container Total Space:"), Some(494384795648));
    assert_eq!(extract_bytes(REPORT, "Container Free Space:"), Some(187188374528));
    assert_eq!(extract_bytes(REPORT, "Disk Size:"), None);
    // A labeled line without a parenthesized number yields nothing.
    assert_eq!(extract_bytes("Disk Size: unknown\n", "Disk Size:"), None);
    // The first labeled line settles the answer.
    assert_eq!(
        extract_bytes("Size: x (7 Bytes)\nSize: y (9 Bytes)\n", "Size:"),
        Some(7)
    );
    // A number too large for 64 bits yields nothing.
    assert_eq!(
        extract_bytes("Size: (99999999999999999999999 Bytes)", "Size:"),
        None
    );
}

#[test]
fn disk_info_from_report() {
    let info = parse_disk_info(REPORT).unwrap();
    assert_eq!(info.total_bytes, 494384795648);
    assert_eq!(info.free_bytes, 187188374528);
    assert_eq!(info.used_bytes, 494384795648 - 187188374528);
    assert_eq!(parse_disk_info("no labels here"), None);
    // The disk-size line backs up a missing container line.
    let alt = "Disk Size: 500.0 GB (500000000000 Bytes)\nContainer Free Space: 1 GB (1000000000 Bytes)\n";
    let info2 = parse_disk_info(alt).unwrap();
    assert_eq!(info2.total_bytes, 500000000000);
    assert_eq!(info2.free_bytes, 1000000000);
}
