use taskbar_ip::encoding::{prefix_before_nul_or_all, prefix_before_nul_or_empty, to_wide};
use taskbar_ip::text::{
    chars_eq_ignore_ascii_case, chars_of, contains, decimal_chars, parse_u32, split_chars,
};

fn cs(s: &str) -> Vec<char> {
    s.chars().collect()
}

#[test]
fn parse_u32_matches_std() {
    for s in ["0", "42", "+7", "+", "-1", "", "4294967295", "4294967296", "12a", " 1", "00012"] {
        assert_eq!(parse_u32(&cs(s)), s.parse::<u32>().ok(), "input {:?}", s);
    }
}

#[test]
fn decimal_rendering() {
    assert_eq!(decimal_chars(0), cs("0"));
    assert_eq!(decimal_chars(135), cs("135"));
    assert_eq!(decimal_chars(u32::MAX), cs("4294967295"));
}

#[test]
fn split_like_std() {
    for s in ["", ".", "a.b", "10.0.0.1", "..x.", "no-dots"] {
        let expected: Vec<Vec<char>> = s.split('.').map(cs).collect();
        assert_eq!(split_chars(&cs(s), '.'), expected);
    }
}

#[test]
fn substring_and_case() {
    assert!(contains(&cs("MyDeskBandHost"), &cs("DeskBand")));
    assert!(!contains(&cs("Desk"), &cs("DeskBand")));
    assert!(chars_eq_ignore_ascii_case(&cs("TaskBar-IP.EXE"), &cs("taskbar-ip.exe")));
    assert!(!chars_eq_ignore_ascii_case(&cs("taskbar-ip.exe"), &cs("taskbar-ip.ex")));
    assert_eq!(chars_of("héllo"), cs("héllo"));
}

#[test]
fn wide_strings() {
    let expected: Vec<u16> = "A😀é".encode_utf16().chain(std::iter::once(0)).collect();
    assert_eq!(to_wide("A😀é"), expected);
    assert_eq!(to_wide(""), vec![0u16]);
    assert_eq!(prefix_before_nul_or_all(&[65, 66, 0, 67]), vec![65, 66]);
    assert_eq!(prefix_before_nul_or_all(&[65, 66]), vec![65, 66]);
    assert_eq!(prefix_before_nul_or_empty(&[65, 66]), Vec::<u16>::new());
    assert_eq!(prefix_before_nul_or_empty(&[65, 0]), vec![65]);
}
