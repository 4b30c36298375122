use linkman::document::{join_lines, split_lines};
use linkman::link_jump::{is_subsequent_run, jump_succeeded, man_command_args, pager_command};
use linkman::man_page_info::ManPageInfo;
use linkman::man_width::{parse_width, resized_man_width, startup_man_width};

#[test]
fn split_lines_matches_str_lines() {
    for text in ["", "a", "a\n", "a\n\nb", "a\r\nb\r\n", "a\rb\n\r\n", "\n", "é\nü"] {
        let expected: Vec<String> = text.lines().map(|l| l.to_string()).collect();
        assert_eq!(split_lines(text), expected, "{:?}", text);
    }
}

#[test]
fn join_puts_newlines_between() {
    assert_eq!(join_lines(&vec![]), "");
    assert_eq!(join_lines(&vec!["a".to_string()]), "a");
    assert_eq!(join_lines(&vec!["a".to_string(), String::new(), "b".to_string()]), "a\n\nb");
}

#[test]
fn parse_width_reads_u16() {
    assert_eq!(parse_width("78"), Some(78));
    assert_eq!(parse_width("+78"), Some(78));
    assert_eq!(parse_width("0"), Some(0));
    assert_eq!(parse_width("65535"), Some(65535));
    assert_eq!(parse_width("65536"), None);
    assert_eq!(parse_width("999999999999"), None);
    assert_eq!(parse_width(""), None);
    assert_eq!(parse_width("+"), None);
    assert_eq!(parse_width("-1"), None);
    assert_eq!(parse_width(" 7"), None);
    assert_eq!(parse_width("7a"), None);
    for s in ["1", "+12", "00042", "65535", "65536", "-0", "x", "++1"] {
        assert_eq!(parse_width(s), s.parse::<u16>().ok(), "{:?}", s);
    }
}

#[test]
fn startup_width_keeps_an_inherited_value() {
    assert_eq!(startup_man_width(Some("100"), Some(120)), None);
    assert_eq!(startup_man_width(Some("wide"), Some(120)), Some(118));
    assert_eq!(startup_man_width(None, Some(120)), Some(118));
    assert_eq!(startup_man_width(None, None), Some(78));
    assert_eq!(startup_man_width(None, Some(1)), Some(0));
}

#[test]
fn resized_width_subtracts_borders() {
    assert_eq!(resized_man_width(100), 98);
    assert_eq!(resized_man_width(2), 0);
    assert_eq!(resized_man_width(0), 0);
}

#[test]
fn jump_success_needs_normal_exit_with_zero() {
    assert!(jump_succeeded(1234, 0));
    assert!(!jump_succeeded(1234, 1 << 8));
    assert!(!jump_succeeded(1234, 9));
    assert!(!jump_succeeded(-1, 0));
}

#[test]
fn subsequent_run_flag_is_found_after_program_name() {
    let args = |v: &[&str]| v.iter().map(|s| s.to_string()).collect::<Vec<String>>();
    assert!(is_subsequent_run(&args(&["linkman", "--subsequent-run"])));
    assert!(!is_subsequent_run(&args(&["linkman"])));
    assert!(!is_subsequent_run(&args(&["--subsequent-run"])));
    assert!(!is_subsequent_run(&args(&["linkman", "--subsequent-runs"])));
}

#[test]
fn pager_command_marks_subsequent_run() {
    assert_eq!(pager_command("/usr/bin/linkman"), "/usr/bin/linkman --subsequent-run");
}

#[test]
fn man_command_has_section_and_name_apart() {
    let info = ManPageInfo::try_from("mount(2)").unwrap();
    let (section, name) = info.as_args();
    let args = man_command_args("/bin/lm --subsequent-run", section, name).unwrap();
    assert_eq!(
        args,
        vec![
            b"man\0".to_vec(),
            b"-P\0".to_vec(),
            b"/bin/lm --subsequent-run\0".to_vec(),
            b"2\0".to_vec(),
            b"mount\0".to_vec(),
        ]
    );
    assert_eq!(man_command_args("/bin/l\0m", b"2\0".to_vec(), b"x\0".to_vec()), None);
}
