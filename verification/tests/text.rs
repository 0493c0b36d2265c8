use pkgmanager_builder::error::BuilderError;
use pkgmanager_builder::paths::{file_name_of, join};
use pkgmanager_builder::text::{
    chars_of, concat_str, contains, ends_with, format_decimal, format_signed, join_with, parse_u32,
    remove_class, same_text, sort_texts, split_on, split_whitespace, text_precedes, trim,
    trim_class, CharClass,
};
use std::path::Path;

fn strings(items: &[&str]) -> Vec<String> {
    items.iter().map(|s| s.to_string()).collect()
}

#[test]
fn trim_agrees_with_the_standard_library() {
    for s in [
        "", " ", "a", "  a b \t\n", "\u{a0}x\u{3000}", "\u{2003}y\u{2028}", "\u{200b}z", "\rline\r\n",
        "\u{85}v\u{1680}", "\u{0b}\u{0c}w", "\u{1c}k", "é ", " \u{205f}\u{202f}q\u{2029}",
    ] {
        assert_eq!(trim(s), s.trim(), "input {:?}", s);
    }
}

#[test]
fn whitespace_class_agrees_with_the_standard_library() {
    for code in 0u32..0x3100 {
        if let Some(c) = char::from_u32(code) {
            assert_eq!(CharClass::Whitespace.contains(c), c.is_whitespace(), "char {:?}", c);
        }
    }
    assert!(CharClass::Quote.contains('\'') && CharClass::Quote.contains('"'));
    assert!(!CharClass::Quote.contains('`'));
    assert!(CharClass::DoubleQuote.contains('"') && !CharClass::DoubleQuote.contains('\''));
}

#[test]
fn classes_are_trimmed_and_removed() {
    assert_eq!(trim_class("\"'a'b'\"", CharClass::Quote), "a'b");
    assert_eq!(trim_class("\"'a'\"", CharClass::DoubleQuote), "'a'");
    assert_eq!(trim_class("''", CharClass::Quote), "");
    assert_eq!(remove_class("'a' \"b\"", CharClass::Quote), "a b");
    assert_eq!(remove_class(" a\tb\n", CharClass::Whitespace), "ab");
    assert_eq!(remove_class("", CharClass::Quote), "");
}

#[test]
fn split_whitespace_agrees_with_the_standard_library() {
    for s in ["", "   ", "a", " a  b\tc\n", "a\u{a0}b", "x\r\ny", "  lead", "trail  "] {
        let expected: Vec<String> = s.split_whitespace().map(|t| t.to_string()).collect();
        assert_eq!(split_whitespace(s), expected, "input {:?}", s);
    }
}

#[test]
fn strings_are_taken_apart_and_rebuilt() {
    assert_eq!(chars_of("aé\u{1F600}"), vec!['a', 'é', '\u{1F600}']);
    assert!(same_text("abc", "abc"));
    assert!(!same_text("abc", "abd"));
    assert!(!same_text("abc", "ab"));
    assert!(same_text("", ""));
    assert_eq!(concat_str("ab", "cd"), "abcd");
}

#[test]
fn substrings_are_found() {
    assert!(contains("a.pkg.tar.zst", ".pkg.tar."));
    assert!(contains("abc", ""));
    assert!(contains("", ""));
    assert!(contains("abc", "c"));
    assert!(contains("aab", "ab"));
    assert!(!contains("abc", "abcd"));
    assert!(!contains("abc", "ac"));
    assert!(ends_with("build.log", ".log"));
    assert!(ends_with(".log", ".log"));
    assert!(ends_with("x", ""));
    assert!(!ends_with("log", ".log"));
    assert!(!ends_with("build.log.txt", ".log"));
}

#[test]
fn parts_are_joined_and_split() {
    assert_eq!(join_with(&strings(&["a", "b", "c"]), " "), "a b c");
    assert_eq!(join_with(&strings(&["a"]), ", "), "a");
    assert_eq!(join_with(&vec![], " "), "");
    assert_eq!(join_with(&strings(&["", ""]), "-"), "-");
    for s in ["", "a", "a\nb", "a\n", "\n", "\n\nx", "a=b=c"] {
        let expected: Vec<String> = s.split('\n').map(|t| t.to_string()).collect();
        assert_eq!(split_on(s, '\n'), expected, "input {:?}", s);
    }
    assert_eq!(split_on("a=b=c", '='), strings(&["a", "b", "c"]));
}

#[test]
fn numbers_are_written_and_read() {
    for n in [0u64, 7, 10, 99, 100, 12345, u32::MAX as u64, u64::MAX] {
        assert_eq!(format_decimal(n), n.to_string());
    }
    for n in [0i32, 1, -1, 42, -2147483648, 2147483647] {
        assert_eq!(format_signed(n), n.to_string());
    }
    for s in ["0", "7", "+7", "007", "4294967295", "4294967296", "99999999999", "", "+", "-1", "1a", " 1", "1 ", "++1", "٣"] {
        assert_eq!(parse_u32(s), s.parse::<u32>().ok(), "input {:?}", s);
    }
}

#[test]
fn order_of_texts_agrees_with_the_standard_library() {
    let samples = ["", "a", "b", "ab", "aa", "a-b", "a/b", "B", "é", "e\u{301}", "z", "\u{1F600}", "10", "2"];
    for a in samples {
        for b in samples {
            assert_eq!(text_precedes(a, b), a <= b, "{:?} before {:?}", a, b);
        }
    }
    let mut expected: Vec<String> = samples.iter().map(|s| s.to_string()).collect();
    expected.push("a".to_string());
    let given = expected.clone();
    expected.sort();
    assert_eq!(sort_texts(&given), expected);
    assert!(sort_texts(&vec![]).is_empty());
    assert_eq!(sort_texts(&strings(&["c", "b", "a"])), strings(&["a", "b", "c"]));
}

#[test]
fn file_names_agree_with_the_standard_library() {
    for p in [
        "", "/", "//", ".", "..", "./", "../", "a", "a/", "a//", "a/.", "a/./", "a/..", "a/b",
        "/a", "/a/b.txt", "./a", "a/./b", "a/b/.", "a/b/./.", "/.", "/..", ".hidden", "a/.hidden",
        "a/...", "a.pkg.tar.zst", "dir/sub/PKGBUILD", "..a", "a/..b/",
    ] {
        let expected =
            Path::new(p).file_name().and_then(|n| n.to_str()).map(|n| n.to_string());
        assert_eq!(file_name_of(p), expected, "path {:?}", p);
    }
}

#[test]
fn joins_agree_with_the_standard_library() {
    for (dir, name) in [
        ("artifacts", "a.log"), ("artifacts/", "a.log"), ("", "a.log"), ("/", "a"), ("a/b", "c"),
        ("a", "/abs"), ("a", ""), ("", ""), ("a//", "b"),
    ] {
        let expected = Path::new(dir).join(name).to_string_lossy().to_string();
        assert_eq!(join(dir, name), expected, "join {:?} {:?}", dir, name);
    }
}

#[test]
fn errors_are_built_and_described() {
    let e = BuilderError::pkgbuild_parse("bad".to_string(), "PKGBUILD".to_string());
    assert!(matches!(&e, BuilderError::PkgbuildParse { message, path } if message == "bad" && path == "PKGBUILD"));
    assert_eq!(e.describe(), "PKGBUILD parsing error: bad");
    let e = BuilderError::dependency("dep".to_string(), strings(&["a"]));
    assert!(matches!(&e, BuilderError::Dependency { message, dependencies } if message == "dep" && dependencies == &strings(&["a"])));
    assert_eq!(e.describe(), "Dependency error: dep");
    let e = BuilderError::build("b".to_string());
    assert!(matches!(&e, BuilderError::Build { message } if message == "b"));
    assert_eq!(e.describe(), "Build error: b");
    let e = BuilderError::artifact("a".to_string(), "p".to_string());
    assert!(matches!(&e, BuilderError::Artifact { message, path } if message == "a" && path == "p"));
    assert_eq!(e.describe(), "Artifact error: a");
    let source = std::io::Error::new(std::io::ErrorKind::NotFound, "gone");
    let e = BuilderError::file_system("read".to_string(), "some/file".to_string(), source);
    assert!(matches!(&e, BuilderError::FileSystem { operation, path, source } if operation == "read" && path == "some/file" && source.kind() == std::io::ErrorKind::NotFound));
    assert_eq!(e.describe(), "File system error: read failed on some/file");
    let e = BuilderError::process("ls -l".to_string(), Some(2), "o".to_string(), "e".to_string());
    assert!(matches!(&e, BuilderError::Process { command, exit_code: Some(2), stdout, stderr } if command == "ls -l" && stdout == "o" && stderr == "e"));
    assert_eq!(e.describe(), "Process error: ls -l failed");
    let e = BuilderError::config("c".to_string());
    assert!(matches!(&e, BuilderError::Config { message } if message == "c"));
    assert_eq!(e.describe(), "Configuration error: c");
    let e = BuilderError::validation("v".to_string());
    assert!(matches!(&e, BuilderError::Validation { message } if message == "v"));
    assert_eq!(e.describe(), "Validation error: v");
}
