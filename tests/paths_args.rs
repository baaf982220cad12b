use zoobench::args::{parse_duration, parse_human_bytes};
use zoobench::path::{decimal_text, intermediate_paths, node_path, node_path_template, skip_last};

#[test]
fn template_and_item_paths() {
    let t = node_path_template("/bench-test");
    assert_eq!(t, "/bench-test/test-node");
    assert_eq!(node_path(&t, 0), "/bench-test/test-node0");
    assert_eq!(node_path(&t, 99), "/bench-test/test-node99");
    assert_eq!(node_path("/z/test-node", 4294967295), "/z/test-node4294967295");
}

#[test]
fn decimal_rendering() {
    assert_eq!(decimal_text(0), "0");
    assert_eq!(decimal_text(1234), "1234");
}

#[test]
fn intermediate_paths_of_templates() {
    assert_eq!(intermediate_paths("/bench-test/test-node"), vec!["/bench-test".to_string()]);
    assert_eq!(intermediate_paths("/zoobench/test-node"), vec!["/zoobench".to_string()]);
    assert_eq!(
        intermediate_paths("/a/b/test-node"),
        vec!["/a".to_string(), "/a/b".to_string()]
    );
    assert_eq!(intermediate_paths("a//b/test-node"), vec!["/a".to_string(), "/a/b".to_string()]);
    assert_eq!(intermediate_paths("/test-node"), Vec::<String>::new());
    assert_eq!(intermediate_paths(""), Vec::<String>::new());
}

#[test]
fn skip_last_drops_only_the_last() {
    assert_eq!(skip_last(vec![1, 2, 3]), vec![1, 2]);
    assert_eq!(skip_last(vec![1]), Vec::<i32>::new());
    assert_eq!(skip_last(Vec::<i32>::new()), Vec::<i32>::new());
}

#[test]
fn durations_in_seconds() {
    assert_eq!(parse_duration("10"), Ok(10));
    assert_eq!(parse_duration("+5"), Ok(5));
    assert!(parse_duration("").is_err());
    assert!(parse_duration("-1").is_err());
    assert!(parse_duration("1s").is_err());
    assert!(parse_duration("18446744073709551616").is_err());
}

#[test]
fn human_byte_sizes() {
    assert_eq!(parse_human_bytes("1024"), Ok(1024));
    assert_eq!(parse_human_bytes("128K"), Ok(128_000));
    assert_eq!(parse_human_bytes("1 KiB"), Ok(1024));
    assert!(parse_human_bytes("lots").is_err());
}

#[test]
fn human_byte_size_errors_carry_the_parser_message() {
    let msg = parse_human_bytes("lots").unwrap_err();
    assert!(msg.starts_with("couldn't parse \"lots\" into a ByteSize"));
    let msg = parse_human_bytes("12 parsecs").unwrap_err();
    assert!(msg.starts_with("couldn't parse \"parsecs\" into a known SI unit"));
}
