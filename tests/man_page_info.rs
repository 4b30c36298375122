use linkman::man_page_info::{ManPageInfo, StringNotManRefError};

#[test]
fn parses_mount_2() {
    let info = ManPageInfo::try_from("mount(2)").unwrap();
    assert_eq!(info.name(), "mount");
    assert_eq!(info.section_number(), "2");
}

#[test]
fn parses_without_closing_paren() {
    let info = ManPageInfo::try_from("mount(2").unwrap();
    assert_eq!(info.name(), "mount");
    assert_eq!(info.section_number(), "2");
}

#[test]
fn ignores_what_follows_the_digit() {
    let info = ManPageInfo::try_from("printf(3p),").unwrap();
    assert_eq!(info.name(), "printf");
    assert_eq!(info.section_number(), "3");
}

#[test]
fn rejects_path_separator() {
    assert_eq!(
        ManPageInfo::try_from("../etc/passwd(1)").err(),
        Some(StringNotManRefError)
    );
}

#[test]
fn rejects_nul() {
    assert!(ManPageInfo::try_from("mount\0(2)").is_err());
    assert!(ManPageInfo::try_from("mount(2)\0").is_err());
}

#[test]
fn rejects_plain_word() {
    assert!(ManPageInfo::try_from("plainword").is_err());
}

#[test]
fn rejects_paren_without_digit() {
    assert!(ManPageInfo::try_from("mount(x)").is_err());
    assert!(ManPageInfo::try_from("mount(").is_err());
    assert!(ManPageInfo::try_from("f(n)(2)").is_err());
}

#[test]
fn empty_name_is_accepted() {
    let info = ManPageInfo::try_from("(7)").unwrap();
    assert_eq!(info.name(), "");
    assert_eq!(info.section_number(), "7");
}

#[test]
fn args_are_nul_terminated_section_then_name() {
    let info = ManPageInfo::try_from("mount(2)").unwrap();
    let (section, name) = info.as_args();
    assert_eq!(section, b"2\0".to_vec());
    assert_eq!(name, b"mount\0".to_vec());
}

#[test]
fn args_keep_non_ascii_names() {
    let info = ManPageInfo::try_from("größe(1)").unwrap();
    let (section, name) = info.as_args();
    assert_eq!(section, b"1\0".to_vec());
    let mut expected = "größe".as_bytes().to_vec();
    expected.push(0);
    assert_eq!(name, expected);
}

#[test]
fn to_string_is_section_then_name() {
    let info = ManPageInfo::try_from("mount(2)").unwrap();
    assert_eq!(info.to_string(), "2 mount");
}
