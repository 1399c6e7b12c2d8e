use http_server::text::{
    eq_ignore_case, find_separator, is_whitespace, push_decimal, skip_two_segments, split_lines,
    split_whitespace, starts_with, str_eq, to_chars, to_decimal, trim,
};

#[test]
fn whitespace_is_the_unicode_white_space_set() {
    let mut code: u32 = 0;
    while code <= 0x10FFFF {
        if let Some(c) = char::from_u32(code) {
            assert_eq!(is_whitespace(c), c.is_whitespace(), "U+{:04X}", code);
        }
        code += 1;
    }
}

#[test]
fn whitespace_known_members_and_non_members() {
    assert!(is_whitespace(' '));
    assert!(is_whitespace('\t'));
    assert!(is_whitespace('\r'));
    assert!(is_whitespace('\n'));
    assert!(is_whitespace('\u{a0}'));
    assert!(is_whitespace('\u{3000}'));
    assert!(!is_whitespace('a'));
    assert!(!is_whitespace('\0'));
    assert!(!is_whitespace('\u{200b}'));
}

#[test]
fn to_chars_keeps_every_character() {
    assert_eq!(to_chars(""), Vec::<char>::new());
    assert_eq!(to_chars("a/é"), vec!['a', '/', 'é']);
}

#[test]
fn str_eq_compares_characters() {
    assert!(str_eq("", ""));
    assert!(str_eq("GET", "GET"));
    assert!(!str_eq("GET", "get"));
    assert!(!str_eq("GET", "GE"));
    assert!(!str_eq("GET", "GETS"));
}

#[test]
fn split_whitespace_gives_the_maximal_runs() {
    assert_eq!(split_whitespace("GET / HTTP/1.1"), vec!["GET", "/", "HTTP/1.1"]);
    assert_eq!(split_whitespace("  a \t b\r\n"), vec!["a", "b"]);
    assert_eq!(split_whitespace(""), Vec::<&str>::new());
    assert_eq!(split_whitespace(" \t "), Vec::<&str>::new());
    assert_eq!(split_whitespace("one"), vec!["one"]);
    assert_eq!(split_whitespace("a\u{a0}b\u{3000}c"), vec!["a", "b", "c"]);
}

#[test]
fn split_whitespace_agrees_with_std() {
    let samples = [
        "",
        " ",
        "a",
        " a",
        "a ",
        "GET /echo/abc HTTP/1.1",
        "\tGET\t/\tHTTP/1.1\r",
        "a  b   c    d",
        "é \u{2028} ü",
        "\0\0\0",
    ];
    for sample in samples {
        let expected: Vec<&str> = sample.split_whitespace().collect();
        assert_eq!(split_whitespace(sample), expected, "{:?}", sample);
    }
}

#[test]
fn split_lines_ends_lines_at_line_feeds() {
    assert_eq!(split_lines("a\r\nb\r\nc"), vec!["a", "b", "c"]);
    assert_eq!(split_lines("a\nb"), vec!["a", "b"]);
    assert_eq!(split_lines("a\r\n"), vec!["a"]);
    assert_eq!(split_lines(""), Vec::<&str>::new());
    assert_eq!(split_lines("\r\n"), vec![""]);
    assert_eq!(split_lines("a\r\n\r\nb"), vec!["a", "", "b"]);
    assert_eq!(split_lines("a\rb"), vec!["a\rb"]);
    assert_eq!(split_lines("a\r\r\nb"), vec!["a\r", "b"]);
}

#[test]
fn split_lines_agrees_with_std() {
    let samples = [
        "",
        "\n",
        "\r",
        "\r\n",
        "\n\n",
        "GET / HTTP/1.1\r\nHost: x\r\nAccept: */*",
        "GET / HTTP/1.1\r\nHost: x\r\n",
        "one\ntwo\r\nthree\r",
        "\r\nleading",
        "é\nü\n",
    ];
    for sample in samples {
        let expected: Vec<&str> = sample.lines().collect();
        assert_eq!(split_lines(sample), expected, "{:?}", sample);
    }
}

#[test]
fn trim_removes_whitespace_at_both_ends() {
    assert_eq!(trim("  curl/8.0 \r"), "curl/8.0");
    assert_eq!(trim("a b"), "a b");
    assert_eq!(trim(""), "");
    assert_eq!(trim(" \t\r\n"), "");
    assert_eq!(trim("\u{a0}x\u{3000}"), "x");
    assert_eq!(trim("x"), "x");
}

#[test]
fn trim_agrees_with_std() {
    let samples = ["", " ", "a", " a", "a ", "  a  b  ", "\t\r\n", "é ", " \u{2003}é"];
    for sample in samples {
        assert_eq!(trim(sample), sample.trim(), "{:?}", sample);
    }
}

#[test]
fn find_separator_finds_the_first_colon_space() {
    assert_eq!(find_separator(&to_chars("Host: localhost")), Some(4));
    assert_eq!(find_separator(&to_chars("a: b: c")), Some(1));
    assert_eq!(find_separator(&to_chars("Host:localhost")), None);
    assert_eq!(find_separator(&to_chars("a:b: c")), Some(3));
    assert_eq!(find_separator(&to_chars(": ")), Some(0));
    assert_eq!(find_separator(&to_chars(":")), None);
    assert_eq!(find_separator(&to_chars("")), None);
    assert_eq!(find_separator(&to_chars("abc:")), None);
}

#[test]
fn eq_ignore_case_folds_ascii_letters_only() {
    assert!(eq_ignore_case("Content-Type", "content-type"));
    assert!(eq_ignore_case("CONTENT-TYPE", "Content-Type"));
    assert!(eq_ignore_case("", ""));
    assert!(!eq_ignore_case("Content-Type", "Content-Typ"));
    assert!(!eq_ignore_case("Content_Type", "Content-Type"));
    assert!(!eq_ignore_case("@", "`"));
    assert!(!eq_ignore_case("[", "{"));
    assert!(!eq_ignore_case("É", "é"));
    assert!(!eq_ignore_case("\u{212a}", "k"));
}

#[test]
fn starts_with_compares_the_prefix() {
    assert!(starts_with("/echo/abc", "/echo/"));
    assert!(starts_with("/echo/", "/echo/"));
    assert!(starts_with("abc", ""));
    assert!(!starts_with("/echo", "/echo/"));
    assert!(!starts_with("/Echo/abc", "/echo/"));
    assert!(!starts_with("", "/"));
}

#[test]
fn skip_two_segments_keeps_what_follows_the_second_slash() {
    assert_eq!(skip_two_segments("/echo/abc"), "abc");
    assert_eq!(skip_two_segments("/echo/abc/def"), "abc/def");
    assert_eq!(skip_two_segments("/echo/"), "");
    assert_eq!(skip_two_segments("/echo"), "");
    assert_eq!(skip_two_segments("/"), "");
    assert_eq!(skip_two_segments(""), "");
    assert_eq!(skip_two_segments("a/b/c"), "c");
    assert_eq!(skip_two_segments("/files//x/"), "/x/");
}

#[test]
fn skip_two_segments_agrees_with_split_skip_join() {
    let samples = [
        "",
        "/",
        "//",
        "///",
        "/echo",
        "/echo/",
        "/echo/a",
        "/echo/a/b/c",
        "/files/../secret",
        "no-slash",
        "a/b",
        "a/b/",
        "/é/ü/ö",
    ];
    for sample in samples {
        let expected = sample.split("/").skip(2).collect::<Vec<&str>>().join("/");
        assert_eq!(skip_two_segments(sample), expected, "{:?}", sample);
    }
}

#[test]
fn to_decimal_writes_numerals_without_leading_zeros() {
    assert_eq!(to_decimal(0), "0");
    assert_eq!(to_decimal(7), "7");
    assert_eq!(to_decimal(9), "9");
    assert_eq!(to_decimal(10), "10");
    assert_eq!(to_decimal(99), "99");
    assert_eq!(to_decimal(100), "100");
    assert_eq!(to_decimal(1024), "1024");
    assert_eq!(to_decimal(1234567890), "1234567890");
    assert_eq!(to_decimal(usize::MAX), usize::MAX.to_string());
}

#[test]
fn to_decimal_agrees_with_std() {
    let mut n: usize = 0;
    while n < 5000 {
        assert_eq!(to_decimal(n), n.to_string());
        n += 1;
    }
}

#[test]
fn push_decimal_appends_to_what_is_there() {
    let mut text = String::from("Content-Length: ");
    push_decimal(&mut text, 42);
    assert_eq!(text, "Content-Length: 42");
    push_decimal(&mut text, 0);
    assert_eq!(text, "Content-Length: 420");
}

#[test]
fn case_folding_matches_lowercasing_on_the_letters_of_the_vocabulary() {
    let letters = "abcdefghijlmnopqrstuvwxyz-/";
    let mut code: u32 = 0;
    while code <= 0x10FFFF {
        if let Some(c) = char::from_u32(code) {
            let lowered: String = c.to_lowercase().collect();
            if c.is_ascii() || lowered.is_ascii() {
                let text = c.to_string();
                for letter in letters.chars() {
                    let letter = letter.to_string();
                    assert_eq!(
                        eq_ignore_case(&text, &letter),
                        lowered == letter,
                        "U+{:04X} against {}",
                        code,
                        letter
                    );
                }
            } else {
                assert!(!eq_ignore_case(&c.to_string(), "a"), "U+{:04X}", code);
            }
        }
        code += 1;
    }
}
