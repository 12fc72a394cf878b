use hades::size::{format_size_mb, parse_size_mb};

#[test]
fn sizes_parse() {
    assert_eq!(parse_size_mb("512mb").unwrap(), 512);
    assert_eq!(parse_size_mb("2gb").unwrap(), 2048);
    assert_eq!(parse_size_mb("256").unwrap(), 256);
    assert!(parse_size_mb("lots").is_err());
}

#[test]
fn whole_gigabytes_are_written_as_such() {
    assert_eq!(format_size_mb(2048), "2gb");
    assert_eq!(format_size_mb(1536), "1536mb");
    assert_eq!(format_size_mb(0), "0mb");
}
