use nsexec::text::parse_u32;
use nsexec::text::split_chars;
use nsexec::text::u32_to_dec;
use nsexec::Table;

const HOST: &str = "\
20 1 8:1 / / rw shared:1 - ext4 /dev/sda1 rw\n\
33 20 0:27 / /tmp rw - tmpfs tmpfs rw\n";

#[test]
fn split_keeps_empty_fields() {
    let f = split_chars("a:b::c", ':');
    let f: Vec<&str> = f.iter().map(|s| s.as_str()).collect();
    assert_eq!(f, ["a", "b", "", "c"]);
}

#[test]
fn parse_u32_reads_decimal() {
    assert_eq!(parse_u32("0"), Some(0));
    assert_eq!(parse_u32("4294967295"), Some(u32::MAX));
    assert_eq!(parse_u32("4294967296"), None);
    assert_eq!(parse_u32("12a"), None);
    assert_eq!(parse_u32(""), None);
}

#[test]
fn u32_to_dec_renders_decimal() {
    assert_eq!(u32_to_dec(0).as_str(), "0");
    assert_eq!(u32_to_dec(7).as_str(), "7");
    assert_eq!(u32_to_dec(1234).as_str(), "1234");
    assert_eq!(u32_to_dec(u32::MAX).as_str(), "4294967295");
}

#[test]
fn table_parses_entries() {
    let t = Table::from_text(HOST).unwrap();
    assert_eq!(t.len(), 2);
    assert!(!t.is_empty());
    let e = t.find_target("/").unwrap();
    assert_eq!(e.id(), 20);
    assert_eq!(e.parent_id(), 1);
    assert_eq!(e.dev_major(), 8);
    assert_eq!(e.dev_minor(), 1);
    assert_eq!(e.devno(), 8 * 0x1_0000_0000 + 1);
    assert_eq!(e.root().as_str(), "/");
    assert_eq!(e.target().as_str(), "/");
    assert_eq!(e.fstype().as_str(), "ext4");
    assert_eq!(e.source().as_str(), "/dev/sda1");
}

#[test]
fn optional_fields_are_skipped_to_the_separator() {
    let t = Table::from_text("36 35 98:0 /mnt1 /mnt2 rw,noatime master:1 - ext3 /dev/root rw\n")
        .unwrap();
    let e = t.find_target("/mnt2").unwrap();
    assert_eq!(e.fstype().as_str(), "ext3");
    assert_eq!(e.source().as_str(), "/dev/root");
    assert_eq!(e.dev_major(), 98);
    assert_eq!(e.dev_minor(), 0);
}

#[test]
fn malformed_line_fails_with_its_index() {
    let text = "20 1 8:1 / / rw - ext4 /dev/sda1 rw\nnot a mount line\n";
    let err = Table::from_text(text).unwrap_err();
    assert_eq!(err.line, 1);
}

#[test]
fn empty_text_is_an_empty_table() {
    let t = Table::from_text("").unwrap();
    assert_eq!(t.len(), 0);
    assert!(t.is_empty());
}

#[test]
fn find_target_takes_the_first_match_in_table_order() {
    let text = "\
10 1 8:1 / /same rw - ext4 /dev/sda1\n\
11 1 8:2 / /same rw - xfs /dev/sdb1\n";
    let t = Table::from_text(text).unwrap();
    let e = t.find_target("/same").unwrap();
    assert_eq!(e.id(), 10);
    assert_eq!(e.fstype().as_str(), "ext4");
}

#[test]
fn find_source_resolves_like_find_target() {
    let t = Table::from_text(HOST).unwrap();
    let by_source = t.find_source("/dev/sda1").unwrap();
    let by_target = t.find_target("/").unwrap();
    assert_eq!(by_source.devno(), by_target.devno());
    assert_eq!(by_source.fstype(), by_target.fstype());
    assert!(t.find_source("/dev/nope").is_none());
    assert!(t.find_target("/nope").is_none());
}

#[test]
fn srcpath_is_the_source_when_it_is_a_path() {
    let t = Table::from_text(HOST).unwrap();
    let disk = t.find_target("/").unwrap();
    assert_eq!(disk.srcpath().unwrap().as_str(), "/dev/sda1");
    let tmp = t.find_target("/tmp").unwrap();
    assert!(tmp.srcpath().is_none());
}

#[test]
fn root_fs_is_the_entry_without_a_parent_in_the_table() {
    let t = Table::from_text(HOST).unwrap();
    let root = t.get_root_fs().unwrap();
    assert_eq!(root.id(), 20);
    let t = Table::from_text("33 20 0:27 / /tmp rw - tmpfs tmpfs rw\n20 1 8:1 / / rw - ext4 /dev/sda1 rw\n")
        .unwrap();
    assert_eq!(t.get_root_fs().unwrap().id(), 20);
}

#[test]
fn cleared_table_is_empty() {
    let mut t = Table::from_text(HOST).unwrap();
    t.clear();
    assert!(t.is_empty());
    let t = Table::new();
    assert_eq!(t.len(), 0);
}

#[test]
fn escaped_path_fields_are_unescaped() {
    let t = Table::from_text("40 20 8:3 / /mnt/my\\040dir rw - ext4 /dev/sda3 rw\n").unwrap();
    let e = t.find_target("/mnt/my dir").unwrap();
    assert_eq!(e.target().as_str(), "/mnt/my dir");
    assert_eq!(e.dev_minor(), 3);
    assert!(t.find_target("/mnt/my\\040dir").is_none());
    let t = Table::from_text("41 20 8:4 / /m rw - ext4 /dev\\134x\\011y rw\n").unwrap();
    assert_eq!(t.find_target("/m").unwrap().source().as_str(), "/dev\\x\ty");
}

#[test]
fn cloned_entry_keeps_identity_after_the_table_is_gone() {
    let e = {
        let t = Table::from_text(HOST).unwrap();
        t.find_target("/").unwrap().clone()
    };
    assert_eq!(e.devno(), 8 * 0x1_0000_0000 + 1);
    assert_eq!(e.fstype().as_str(), "ext4");
    assert_eq!(e.root().as_str(), "/");
}
