use chunked_uploader::cast::{to_signed, to_unsigned};
use chunked_uploader::clock::{write_second, EARLIEST, LATEST};
use chunked_uploader::decimal::{
    parse_unsigned, push_decimal, push_decimal_unsigned, push_zero_padded,
};
use chunked_uploader::paths::{file_name_of, join, parent_of, with_file_name};
use chunked_uploader::text::{
    contains, ends_with, keep_safe, starts_with, strip_prefix, trim_separators,
};
use std::path::Path;

fn paths() -> Vec<&'static str> {
    vec![
        "",
        "/",
        "//",
        ".",
        "..",
        "./",
        "../",
        "a",
        "a/",
        "a//",
        "a/.",
        "a/./",
        "a/..",
        "a/../",
        "/a",
        "//a",
        "/a/",
        "a/b",
        "a//b",
        "a/./b",
        "./a",
        "./a/b",
        "a/b/c.txt",
        "/a/b/c.txt",
        "videos/2024/movie.mp4",
        "a/b/..",
        "a\\b",
        "/.",
        "/..",
        "/./",
        "a/.b",
        "a/b.",
        "a/...",
        "\u{e4}/\u{f6}.txt",
        ".hidden",
        "dir/.hidden",
    ]
}

#[test]
fn file_names_are_those_of_the_platform() {
    for path in paths() {
        let expected = Path::new(path).file_name().map(|n| n.to_str().unwrap().to_string());
        assert_eq!(file_name_of(path), expected, "{path:?}");
    }
}

#[test]
fn parents_are_those_of_the_platform() {
    for path in paths() {
        let expected = Path::new(path).parent().map(|p| p.to_str().unwrap().to_string());
        assert_eq!(parent_of(path), expected, "{path:?}");
    }
}

#[test]
fn joined_paths_are_those_of_the_platform() {
    for base in paths() {
        for path in paths() {
            let expected = Path::new(base).join(path);
            assert_eq!(join(base, path), expected.to_str().unwrap(), "{base:?} {path:?}");
        }
    }
}

#[test]
fn renamed_paths_are_those_of_the_platform() {
    for path in paths() {
        let expected = Path::new(path).with_file_name("new.txt");
        assert_eq!(with_file_name(path, "new.txt"), expected.to_str().unwrap(), "{path:?}");
    }
}

#[test]
fn decimal_text_is_that_of_the_platform() {
    for n in [0i64, 1, 9, 10, 42, -1, -10, i64::MAX, i64::MIN] {
        let mut text = "n=".to_string();
        push_decimal(&mut text, n);
        assert_eq!(text, format!("n={n}"));
    }
    for n in [0u64, 7, 10, 1234567890, u64::MAX] {
        let mut text = String::new();
        push_decimal_unsigned(&mut text, n);
        assert_eq!(text, n.to_string());
    }
    for n in [0i32, 1, 42, 999999, 1000000, -1, -99999, -100000, i32::MAX, i32::MIN] {
        let mut text = String::new();
        push_zero_padded(&mut text, n, 6);
        assert_eq!(text, format!("{n:06}"));
    }
}

#[test]
fn numbers_are_read_as_the_platform_reads_them() {
    for text in ["", "0", "7", "007", "+7", "+", "-1", " 7", "7 ", "65535", "65536", "1_0", "99999999999999999999", "\u{664}"] {
        assert_eq!(
            parse_unsigned(text, u16::MAX as u64),
            text.parse::<u16>().ok().map(|n| n as u64),
            "{text:?}"
        );
        assert_eq!(parse_unsigned(text, u64::MAX), text.parse::<u64>().ok(), "{text:?}");
    }
    assert_eq!(parse_unsigned("18446744073709551615", u64::MAX), Some(u64::MAX));
    assert_eq!(parse_unsigned("18446744073709551616", u64::MAX), None);
}

#[test]
fn casts_keep_the_bits() {
    for n in [0u64, 1, i64::MAX as u64, i64::MAX as u64 + 1, u64::MAX - 1, u64::MAX] {
        assert_eq!(to_signed(n), n as i64);
        assert_eq!(to_unsigned(n as i64), n);
    }
}

#[test]
fn searching_is_that_of_the_platform() {
    let texts = ["", "a", "abc", "abcabc", "files", "files/", "myfiles", "\u{e4}b"];
    for s in texts {
        for t in texts {
            assert_eq!(contains(s, t), s.contains(t), "{s:?} {t:?}");
            assert_eq!(starts_with(s, t), s.starts_with(t), "{s:?} {t:?}");
            assert_eq!(ends_with(s, t), s.ends_with(t), "{s:?} {t:?}");
            assert_eq!(strip_prefix(s, t), s.strip_prefix(t).map(|r| r.to_string()), "{s:?} {t:?}");
        }
    }
}

#[test]
fn trimming_takes_outer_separators() {
    assert_eq!(trim_separators("//a/b//", false), "a/b");
    assert_eq!(trim_separators("/\\a\\/", false), "\\a\\");
    assert_eq!(trim_separators("/\\a\\/", true), "a");
    assert_eq!(trim_separators("///", false), "");
    assert_eq!(trim_separators("", true), "");
}

#[test]
fn filtering_keeps_letters_digits_and_some_marks() {
    assert_eq!(keep_safe("a b!c/d.e-f_g\\h", true), "abc/d.e-f_gh");
    assert_eq!(keep_safe("a b!c/d.e-f_g\\h", false), "abcd.e-f_gh");
    assert_eq!(keep_safe("\u{e4}\u{4e2d}\u{2603}\u{663}", true), "\u{e4}\u{4e2d}\u{663}");
}

#[test]
fn seconds_are_written_as_dates() {
    assert_eq!(write_second(0), "1970-01-01T00:00:00Z");
    assert_eq!(write_second(1431648000), "2015-05-15T00:00:00Z");
    assert_eq!(write_second(-1), "1969-12-31T23:59:59Z");
    assert_eq!(write_second(LATEST), "+262142-12-31T23:59:59Z");
    assert_eq!(write_second(EARLIEST), "-262143-01-01T00:00:00Z");
    assert_eq!(write_second(LATEST + 1), "");
    assert_eq!(write_second(EARLIEST - 1), "");
    assert_eq!(write_second(i64::MAX), "");
}
