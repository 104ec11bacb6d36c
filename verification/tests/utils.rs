use spades_runner::utils::{
    get_system_info, parse_duration, print_done, print_formatted_duration, print_header,
    split_strings, PrettyHeader, SystemInfo,
};

#[test]
fn time_parsing_test() {
    let duration = 65;
    let duration_2 = 3600;
    let time = parse_duration(duration);
    let hours = parse_duration(duration_2);

    assert_eq!("00:01:05", time);
    assert_eq!("01:00:00", hours);
}

#[test]
fn durations_below_a_day() {
    assert_eq!(parse_duration(0), "00:00:00");
    assert_eq!(parse_duration(59), "00:00:59");
    assert_eq!(parse_duration(3599), "00:59:59");
    assert_eq!(parse_duration(86399), "23:59:59");
    assert_eq!(parse_duration(45296), "12:34:56");
}

#[test]
fn formatted_duration_is_one_line() {
    assert_eq!(
        print_formatted_duration(3725),
        "Execution time (HH:MM:SS): 01:02:05\n"
    );
}

#[test]
fn split_strings_trims_each_field() {
    assert_eq!(split_strings(" a , b ,c ", ','), vec!["a", "b", "c"]);
    assert_eq!(split_strings("a", ','), vec!["a"]);
    assert_eq!(split_strings("", ','), vec![""]);
    assert_eq!(split_strings(" : ", ':'), vec!["", ""]);
}

#[test]
fn header_of_even_length() {
    let rule = "=".repeat(44);
    let want = format!("\x1b[0;33m{} Processing x {}\n\x1b[0m", rule, rule);
    assert_eq!(print_header("x"), want);
}

#[test]
fn header_of_odd_length_has_one_more_symbol() {
    let rule = "=".repeat(43);
    let want = format!("\x1b[0;33m{} Processing ab {}=\n\x1b[0m", rule, rule);
    assert_eq!(print_header("ab"), want);
}

#[test]
fn header_wider_than_the_banner_is_bare() {
    let text = "x".repeat(99);
    let mut header = PrettyHeader::new(&text, '-', 98);
    let want = format!("\x1b[0;33m{}\n\x1b[0m", text);
    assert_eq!(header.print_header(), want);
}

#[test]
fn header_as_wide_as_the_banner() {
    let text = "x".repeat(98);
    let mut header = PrettyHeader::new(&text, '-', 98);
    let want = format!("\x1b[0;33m- {} -\n\x1b[0m", text);
    assert_eq!(header.print_header(), want);
    assert_eq!(header.text_len, 98);
    assert_eq!(header.sym_len, 0);
}

#[test]
fn header_is_measured_in_bytes() {
    let mut header = PrettyHeader::new("\u{e9}", '*', 6);
    header.get_len();
    assert_eq!(header.text_len, 2);
    assert_eq!(header.sym_len, 2);
    let mut out = String::new();
    header.print_with_symbol(&mut out);
    assert_eq!(out, "*** \u{e9} ***\n");
    let mut rule = String::from(">");
    header.print_symbols(&mut rule);
    assert_eq!(rule, ">***");
}

#[test]
fn done_notice() {
    assert_eq!(print_done(), "\x1b[0;32mDONE!\x1b[0m\n");
}

#[test]
fn system_report() {
    let info = SystemInfo {
        name: "Ubuntu".to_string(),
        os_version: "20.04".to_string(),
        kernel_version: "5.4.0".to_string(),
        cores: 4,
        threads: 8,
        total_ram: 16 * 1048576 + 5,
    };
    let want = "\x1b[0;33mSystem Information\x1b[0m\n\
                Operating system\t: Ubuntu 20.04\n\
                Kernel version\t\t: 5.4.0\n\
                Available cores\t\t: 4\n\
                Available threads\t: 8\n\
                Total RAM\t\t: 16 Gb\n\n";
    assert_eq!(get_system_info(&info), want);
}
