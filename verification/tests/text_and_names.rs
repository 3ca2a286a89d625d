//! Texts, digits, names, paths and wide strings.

use quarkdrive_windows::digits::{
    decimal_i64, decimal_u64, decimal_usize, hex_of, hex_u128, parse_i64, parse_u64,
};
use quarkdrive_windows::names::{is_internal_name, windows_name};
use quarkdrive_windows::order::order_of;
use quarkdrive_windows::path::{paths_equal, LocalPath, PathComponent};
use quarkdrive_windows::text::{
    blank, bytes_of, join, same_ignoring_ascii_case, same_text, split, strip_prefixes, trim, white,
    whole_string,
};
use quarkdrive_windows::wide::{copy_wide, encode_utf16, wide_str};

fn chars(s: &str) -> Vec<char> {
    s.chars().collect()
}

/// A path as Windows splits it: a drive, its root, and names.
fn drive_path(text: &str) -> LocalPath {
    let mut components = Vec::new();
    let rest = match text.find(':') {
        Some(at) => {
            components.push(PathComponent::Prefix(text[..at + 1].to_ascii_uppercase()));
            &text[at + 1..]
        }
        None => text,
    };
    if rest.starts_with('\\') {
        components.push(PathComponent::RootDir);
    }
    for name in rest.split('\\').filter(|name| !name.is_empty()) {
        components.push(match name {
            "." => PathComponent::CurDir,
            ".." => PathComponent::ParentDir,
            _ => PathComponent::Normal(name.to_owned()),
        });
    }
    let absolute = text.contains(':') && rest.starts_with('\\');
    LocalPath { text: text.to_owned(), absolute, components }
}

#[test]
fn sanitizes_windows_names() {
    assert_eq!(windows_name("CON.txt"), "＿CON.txt");
    assert_eq!(windows_name("a:b. "), "a＿b");
}

#[test]
fn internal_names_are_hidden_from_sync() {
    assert!(is_internal_name(
        ".quarkdrive-trash-1f6b96db-4f6b-41de-87d3-0d32e2676b0b"
    ));
    assert!(is_internal_name(".quarkdrive-upload-123"));
    assert!(is_internal_name(".quarkdrive-backup-123"));
    assert!(is_internal_name("_quarkdrive_trash_123"));
    assert!(!is_internal_name("我的文件夹"));
}

#[test]
fn internal_names_in_capitals_are_internal() {
    assert!(is_internal_name(".QuarkDrive-Upload-x"));
    assert!(!is_internal_name("x.quarkdrive-upload-x"));
    assert!(!is_internal_name(".quarkdrive-upload"));
    assert!(!is_internal_name(""));
}

#[test]
fn windows_names_of_many_kinds() {
    assert_eq!(windows_name(""), "未命名");
    assert_eq!(windows_name(" .. "), "未命名");
    assert_eq!(windows_name("a<b>c:d\"e/f\\g|h?i*j"), "a＿b＿c＿d＿e＿f＿g＿h＿i＿j");
    assert_eq!(windows_name("line\nbreak\u{1}"), "line＿break＿");
    assert_eq!(windows_name("com9"), "＿com9");
    assert_eq!(windows_name("com10"), "com10");
    assert_eq!(windows_name("nul.tar.gz"), "＿nul.tar.gz");
    assert_eq!(windows_name("null"), "null");
    assert_eq!(windows_name("报告.docx"), "报告.docx");
    for name in ["CON.txt", "a:b. ", "", "x ", "LPT1", "普通"] {
        let once = windows_name(name);
        assert_eq!(windows_name(&once), once);
    }
}

#[test]
fn white_space_is_that_of_unicode() {
    for code in 0..=0x10ffff_u32 {
        if let Some(c) = char::from_u32(code) {
            assert_eq!(white(c), c.is_whitespace(), "{code:x}");
        }
    }
}

#[test]
fn trimming_and_blanks() {
    assert_eq!(trim(" \u{3000}a b\t\r\n"), "a b");
    assert_eq!(trim(""), "");
    assert!(blank(" \u{a0}\n"));
    assert!(blank(""));
    assert!(!blank(" x "));
}

#[test]
fn splitting_and_joining() {
    let parts = split("a; b;;c", ';');
    let texts: Vec<String> = parts.iter().map(|p| whole_string(p)).collect();
    assert_eq!(texts, "a; b;;c".split(';').map(str::to_owned).collect::<Vec<_>>());
    assert_eq!(join(&parts, "|"), "a| b||c");
    assert_eq!(split("", ';').len(), 1);
    assert_eq!(join(&Vec::new(), "; "), "");
}

#[test]
fn prefixes_are_taken_off_again_and_again() {
    let left = strip_prefixes(&chars("aaab"), "a");
    assert_eq!(whole_string(&left), "aaab".trim_start_matches("a"));
    let left = strip_prefixes(&chars("http://x"), "https://");
    assert_eq!(whole_string(&left), "http://x");
}

#[test]
fn comparing_texts() {
    assert!(same_text("夸克", "夸克"));
    assert!(!same_text("a", "A"));
    assert!(same_ignoring_ascii_case("C:\\Users\\ME", "c:\\uSERS\\me"));
    assert!(!same_ignoring_ascii_case("É", "é"));
    assert!(!same_ignoring_ascii_case("a", "ab"));
}

#[test]
fn numbers_are_written_and_read() {
    for n in [0_u64, 9, 10, 1024, u64::MAX] {
        assert_eq!(decimal_u64(n), n.to_string());
        assert_eq!(parse_u64(&n.to_string()), Some(n));
    }
    for i in [i64::MIN, -1, 0, 7, i64::MAX] {
        assert_eq!(decimal_i64(i), i.to_string());
        assert_eq!(parse_i64(&i.to_string()), Some(i));
    }
    assert_eq!(decimal_usize(500), "500");
    for text in ["", "+", "-", "+5", "-0", "007", "18446744073709551616", "1a", " 1", "9223372036854775808"] {
        assert_eq!(parse_u64(text), text.parse::<u64>().ok(), "{text}");
        assert_eq!(parse_i64(text), text.parse::<i64>().ok(), "{text}");
    }
}

#[test]
fn hexadecimal_forms() {
    assert_eq!(hex_of(&[0, 15, 16, 255]), "000f10ff");
    assert_eq!(hex_u128(0, 4), "0000");
    assert_eq!(hex_u128(0x1f2e3, 4), "1f2e3");
    assert_eq!(hex_u128(u128::MAX, 1), format!("{:x}", u128::MAX));
}

#[test]
fn ordering_is_stable_and_by_code_points() {
    let keys: Vec<Vec<char>> = ["b", "a", "b", "", "ab", "é"].iter().map(|s| chars(s)).collect();
    assert_eq!(order_of(&keys), vec![3, 1, 4, 0, 2, 5]);
    assert_eq!(order_of(&Vec::new()), Vec::<usize>::new());
}

#[test]
fn bytes_of_a_text() {
    assert_eq!(bytes_of("a夸😀"), "a夸😀".as_bytes());
}

#[test]
fn wide_strings_end_in_zero() {
    for text in ["", "abc", "夸克网盘", "a😀b", "\u{ffff}\u{10000}\u{10ffff}"] {
        let std_units: Vec<u16> = text.encode_utf16().collect();
        assert_eq!(encode_utf16(text), std_units);
        let mut ended = std_units.clone();
        ended.push(0);
        assert_eq!(wide_str(text), ended);
        assert_eq!(String::from_utf16(&encode_utf16(text)).unwrap(), text);
    }
}

#[test]
fn copying_wide_fills_what_there_is() {
    let mut target = [7_u16; 4];
    copy_wide(&mut target, "ab");
    assert_eq!(target, [97, 98, 7, 7]);
    copy_wide(&mut target, "wxyz!");
    assert_eq!(target, [119, 120, 121, 122]);
}

#[test]
fn places_by_name() {
    assert!(!drive_path(r"C:\").is_named_place());
    assert!(drive_path(r"D:\QuarkDrive").is_named_place());
    assert!(!drive_path("").is_named_place());
}

#[test]
fn paths_in_paths() {
    assert!(drive_path(r"C:\Q\a\b").lies_within(&drive_path(r"C:\Q")));
    assert!(drive_path(r"C:\Q").lies_within(&drive_path(r"C:\Q")));
    assert!(!drive_path(r"C:\Quark").lies_within(&drive_path(r"C:\Q")));
    assert!(!drive_path(r"C:\").lies_within(&drive_path(r"C:\Q")));
    assert!(!drive_path(r"D:\Q\a").lies_within(&drive_path(r"C:\Q")));
    let below = |text: &str| drive_path(text).descends(&drive_path(r"C:\Q"));
    assert!(below(r"C:\Q\f") && below(r"C:\Q\a\f") && below(r"C:\Q\a\..\f") && below(r"C:\Q\.\f"));
    assert!(!below(r"C:\Q") && !below(r"C:\QX\f") && !below(r"D:\f"));
    assert!(!below(r"C:\Q\..\f") && !below(r"C:\Q\a\..") && !below(r"C:\Q\..\QX\f"));
    assert!(!below(r"C:\Q\..\Q") && !below(r"C:\Q\..\..\f") && !below(r"C:\X\..\Q\f"));
    assert!(below(r"C:\Q\..\Q\f") && below(r"C:\Q\a\..\..\Q\f") && below(r"C:\Q\..\q\f"));
    assert!(below(r"C:\Q\..\..\..\Q\a\f"));
    assert!(drive_path(r"C:\f").descends(&drive_path(r"C:\")));
    assert!(drive_path(r"C:\..\f").descends(&drive_path(r"C:\")));
    let relative = |text: &str| drive_path(text).descends(&drive_path(""));
    assert!(relative("f") && relative(r"a\..\f") && !relative(r"..\f") && !relative(""));
    assert!(paths_equal(&drive_path(r"C:\Q"), &drive_path(r"c:\q")));
    assert!(!paths_equal(&drive_path(r"C:\Q"), &drive_path(r"C:\Q\")));
}
