use hopen::errors::Error;
use hopen::html::{has_html_files, name_is_html};
use hopen::procs::terminate_result;
use hopen::textparse::{parse_cwd_output, parse_pid_output, trim_bytes};
use hopen::urls::{build_url, log_file_path, u16_to_dec, u64_to_dec};

fn bv(s: &str) -> Vec<u8> {
    s.as_bytes().to_vec()
}

#[test]
fn html_names() {
    assert!(name_is_html(&bv("index.html")));
    assert!(name_is_html(&bv("INDEX.HTML")));
    assert!(name_is_html(&bv("page.Htm")));
    assert!(name_is_html(&bv(".html")));
    assert!(!name_is_html(&bv("htm")));
    assert!(!name_is_html(&bv("style.css")));
    assert!(!name_is_html(&bv("html.txt")));
    assert!(!name_is_html(&bv("")));
}

#[test]
fn html_listing() {
    assert!(has_html_files(&vec![bv("a.txt"), bv("B.HTM"), bv("c.css")]));
    assert!(!has_html_files(&vec![bv("a.txt"), bv("c.css")]));
    assert!(!has_html_files(&vec![]));
}

#[test]
fn pid_listing_first_line() {
    assert_eq!(parse_pid_output(&bv("123\n456\n")), Some(123));
    assert_eq!(parse_pid_output(&bv("  99 \n")), Some(99));
    assert_eq!(parse_pid_output(&bv("")), None);
    assert_eq!(parse_pid_output(&bv("\n123\n")), None);
    assert_eq!(parse_pid_output(&bv("abc\n")), None);
    assert_eq!(parse_pid_output(&bv("12a\n")), None);
    assert_eq!(parse_pid_output(&bv("99999999999\n")), None);
    assert_eq!(parse_pid_output(&bv("4294967295\n")), Some(u32::MAX));
}

#[test]
fn cwd_listing_ninth_column_onward() {
    let listing = bv(
        "COMMAND PID USER FD TYPE DEVICE SIZE/OFF NODE NAME\nserver 12 me txt REG 1,4 640 77 /usr/bin/server\nserver 12 me cwd DIR 1,4 640 2 /tmp/my site\n",
    );
    assert_eq!(parse_cwd_output(&listing), Some(bv("/tmp/my site")));
}

#[test]
fn cwd_listing_short_line_is_skipped() {
    let listing = bv("server cwd short\nserver 12 me cwd DIR 1,4 640 2 /srv\n");
    assert_eq!(parse_cwd_output(&listing), Some(bv("/srv")));
}

#[test]
fn cwd_listing_absent() {
    let listing = bv("COMMAND PID USER FD TYPE DEVICE SIZE/OFF NODE NAME\n");
    assert_eq!(parse_cwd_output(&listing), None);
    assert_eq!(parse_cwd_output(&bv("")), None);
}

#[test]
fn trimming() {
    assert_eq!(trim_bytes(&bv("  x y\t\n")), bv("x y"));
    assert_eq!(trim_bytes(&bv("   ")), bv(""));
    assert_eq!(trim_bytes(&bv("ab")), bv("ab"));
}

#[test]
fn decimal_rendering() {
    assert_eq!(u64_to_dec(0), bv("0"));
    assert_eq!(u64_to_dec(7), bv("7"));
    assert_eq!(u64_to_dec(8100), bv("8100"));
    assert_eq!(u64_to_dec(18446744073709551615), bv("18446744073709551615"));
    assert_eq!(u16_to_dec(8000), bv("8000"));
}

#[test]
fn urls_with_and_without_path() {
    let empty: Vec<Vec<u8>> = vec![];
    assert_eq!(build_url(8000, &empty), bv("http://localhost:8000"));
    let path = vec![bv("blog"), bv("post.html")];
    assert_eq!(build_url(8001, &path), bv("http://localhost:8001/blog/post.html"));
}

#[test]
fn log_path_is_keyed_by_pid() {
    assert_eq!(log_file_path(42), bv("/tmp/hopen-server-42.log"));
}

#[test]
fn terminate_verdict() {
    assert!(terminate_result(true, false).is_ok());
    assert!(terminate_result(false, true).is_ok());
    assert_eq!(terminate_result(false, false).unwrap_err(), Error::TerminateFailed);
}
