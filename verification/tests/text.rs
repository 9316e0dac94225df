use fmm_bench::text::{
    blank, chars_of, contains, ends_with, join_path, lines_of, parse_u32, parse_u64,
    push_decimal, push_fixed_hex, push_hex, split_chars, starts_with, string_of, text_eq,
    trim_chars,
};

const SAMPLES: [&str; 24] = [
    "",
    "a",
    "\n",
    "\r\n",
    "a\n",
    "a\r\n",
    "a\r",
    "a\n\nb",
    "a\r\n\r\nb\r",
    "\n\n",
    "a/b",
    "/a//b/",
    "a\tb\tc",
    "\t\t",
    "  x  ",
    "\u{a0}x\u{3000}",
    "\u{2028}",
    "x\u{200b}",
    "no newline at end",
    "tab\tand\r\nline\n",
    "h\u{e9}llo/w\u{f6}rld",
    "///",
    " \t\r\n",
    "\r\r\n",
];

#[test]
fn split_agrees_with_the_standard_library() {
    for s in SAMPLES {
        for sep in ['/', '\t', '\n', 'a'] {
            let expected: Vec<String> = s.split(sep).map(String::from).collect();
            assert_eq!(split_chars(&chars_of(s), sep), expected, "{:?} at {:?}", s, sep);
        }
    }
}

#[test]
fn lines_agree_with_the_standard_library() {
    for s in SAMPLES {
        let expected: Vec<String> = s.lines().map(String::from).collect();
        assert_eq!(lines_of(s), expected, "{:?}", s);
    }
    assert_eq!(lines_of("a\r\nb\rc\n\r"), vec!["a", "b\rc", "\r"]);
}

#[test]
fn trim_and_blank_agree_with_the_standard_library() {
    for s in SAMPLES {
        assert_eq!(string_of(&trim_chars(&chars_of(s))), s.trim(), "{:?}", s);
        assert_eq!(blank(s), s.trim().is_empty(), "{:?}", s);
    }
    for code in 0u32..0x3100 {
        if let Some(c) = char::from_u32(code) {
            let s = c.to_string();
            assert_eq!(blank(&s), c.is_whitespace(), "U+{:04X}", code);
        }
    }
}

#[test]
fn searches_agree_with_the_standard_library() {
    for s in SAMPLES {
        for pat in ["", "a", "/", "//", "\r\n", "b/", "x  ", "\u{e9}l"] {
            assert_eq!(contains(s, pat), s.contains(pat), "{:?} in {:?}", pat, s);
            assert_eq!(starts_with(s, pat), s.starts_with(pat), "{:?} in {:?}", pat, s);
            assert_eq!(ends_with(s, pat), s.ends_with(pat), "{:?} in {:?}", pat, s);
            assert_eq!(text_eq(s, pat), s == pat);
        }
    }
}

#[test]
fn numbers_are_read_like_the_standard_library_reads_them() {
    let samples = [
        "", "0", "7", "+7", "-7", "+", "-", "007", "+007", "12a", "a12", " 12", "12 ", "1_000",
        "4294967295", "4294967296", "18446744073709551615", "18446744073709551616",
        "99999999999999999999999", "+18446744073709551615", "0x10", "\u{663}", "++1",
    ];
    for s in samples {
        assert_eq!(parse_u64(&chars_of(s)), s.parse::<u64>().ok(), "{:?}", s);
        assert_eq!(parse_u32(&chars_of(s)), s.parse::<u32>().ok(), "{:?}", s);
    }
}

#[test]
fn numbers_are_written_like_the_standard_library_writes_them() {
    let samples = [0u64, 1, 9, 10, 15, 16, 255, 256, 4095, 65535, 65536, 1_700_000_000, u64::MAX];
    for n in samples {
        let mut out = String::from(">");
        push_decimal(&mut out, n);
        assert_eq!(out, format!(">{}", n));
        let mut out = String::from(">");
        push_hex(&mut out, n);
        assert_eq!(out, format!(">{:x}", n));
        let mut out = String::from(">");
        push_fixed_hex(&mut out, n, 16);
        assert_eq!(out, format!(">{:016x}", n));
        let mut out = String::new();
        push_fixed_hex(&mut out, n % 65536, 4);
        assert_eq!(out, format!("{:04x}", n % 65536));
    }
    let mut out = String::new();
    push_fixed_hex(&mut out, 0xabcdef, 4);
    assert_eq!(out, "cdef");
    let mut out = String::from("x");
    push_fixed_hex(&mut out, 7, 0);
    assert_eq!(out, "x");
}

#[test]
fn paths_are_joined_by_one_slash() {
    assert_eq!(join_path("/tmp", "x"), "/tmp/x");
    assert_eq!(join_path("/tmp/", "x"), "/tmp/x");
    assert_eq!(join_path("", "x"), "x");
    assert_eq!(join_path("/", "x"), "/x");
    assert_eq!(join_path("a/b", ""), "a/b/");
}
