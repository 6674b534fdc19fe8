use brighty::groups::{group_id, line_id};

const GROUPS: &str = "root:x:0:\nwheel:x:10:alice,bob\nvideo:x:44:\n";

#[test]
fn finds_group_by_name() {
    assert_eq!(group_id(GROUPS, "wheel"), Some(10));
    assert_eq!(group_id(GROUPS, "root"), Some(0));
    assert_eq!(group_id(GROUPS, "video"), Some(44));
}

#[test]
fn missing_group_gives_none() {
    assert_eq!(group_id(GROUPS, "audio"), None);
    assert_eq!(group_id(GROUPS, "whee"), None);
    assert_eq!(group_id("", "wheel"), None);
}

#[test]
fn last_line_without_newline_is_read() {
    assert_eq!(group_id("root:x:0:\nwheel:x:998:", "wheel"), Some(998));
    assert_eq!(group_id("wheel:x:7", "wheel"), Some(7));
}

#[test]
fn malformed_line_is_skipped_for_a_later_one() {
    assert_eq!(group_id("wheel:x:ten:\nwheel:x:12:\n", "wheel"), Some(12));
    assert_eq!(group_id("wheel:x\nwheel:x:3:\n", "wheel"), Some(3));
}

#[test]
fn line_gid_needs_three_fields_and_u32() {
    assert_eq!(line_id("wheel:x:10:a", "wheel"), Some(10));
    assert_eq!(line_id("wheel:x", "wheel"), None);
    assert_eq!(line_id("wheel", "wheel"), None);
    assert_eq!(line_id("wheel:x:4294967296:", "wheel"), None);
    assert_eq!(line_id("wheel:x:4294967295:", "wheel"), Some(4294967295));
}
