use pkgmanager_builder::error::BuilderError;
use pkgmanager_builder::pkgbuild::{
    apply_lists, apply_scalars, items_of, scalar_entries_of, unquoted_value, validate_info,
    PkgbuildInfo, PkgbuildParser, ARRAY_RULE, COMMENT_RULE, DOUBLE_QUOTED_RULE, FALLBACK_RULE,
    SINGLE_QUOTED_RULE, UNQUOTED_RULE,
};

fn parse(content: &str) -> Result<PkgbuildInfo, BuilderError> {
    let parser = PkgbuildParser::new().unwrap();
    parser.parse_content(content, "PKGBUILD")
}

fn strings(items: &[&str]) -> Vec<String> {
    items.iter().map(|s| s.to_string()).collect()
}

#[test]
fn test_parse_simple_pkgbuild() {
    let content = r#"
pkgname="test-package"
pkgver="1.0.0"
pkgrel=1
arch=('x86_64')
depends=('glibc')
makedepends=('gcc' 'make')
"#;
    let info = parse(content).unwrap();

    assert_eq!(info.name, "test-package");
    assert_eq!(info.version, "1.0.0");
    assert_eq!(info.release, "1");
    assert_eq!(info.arch, vec!["x86_64"]);
    assert_eq!(info.depends, vec!["glibc"]);
    assert_eq!(info.make_depends, vec!["gcc", "make"]);
}

#[test]
fn test_parse_complex_arrays() {
    let content = r#"
pkgname=complex-package
pkgver=2.1.0
pkgrel=3
arch=('x86_64' 'aarch64')
depends=(
    'dep1'
    'dep2>=1.0'  # Comment here
    'dep3'
)
makedepends=('build-dep1' 'build-dep2')
"#;
    let info = parse(content).unwrap();

    assert_eq!(info.arch, vec!["x86_64", "aarch64"]);
    assert_eq!(info.depends, vec!["dep1", "dep2>=1.0", "dep3"]);
    assert_eq!(info.make_depends, vec!["build-dep1", "build-dep2"]);
}

#[test]
fn test_full_version() {
    let info = PkgbuildInfo {
        name: "test".to_string(),
        version: "1.0.0".to_string(),
        release: "1".to_string(),
        ..Default::default()
    };
    assert_eq!(info.full_version(), "1.0.0-1");
}

#[test]
fn test_all_dependencies() {
    let info = PkgbuildInfo {
        depends: vec!["dep1".to_string()],
        make_depends: vec!["makedep1".to_string()],
        check_depends: vec!["checkdep1".to_string()],
        ..Default::default()
    };
    let all_deps = info.all_dependencies();
    assert_eq!(all_deps.len(), 3);
    assert!(all_deps.contains(&"dep1".to_string()));
    assert!(all_deps.contains(&"makedep1".to_string()));
    assert!(all_deps.contains(&"checkdep1".to_string()));
}

#[test]
fn rules_have_their_exact_text() {
    assert_eq!(
        DOUBLE_QUOTED_RULE,
        r#"(?m)^\s*([a-zA-Z_][a-zA-Z0-9_]*)\s*=\s*"([^"\n]*?)"\s*(?:#.*)?$"#
    );
    assert_eq!(
        SINGLE_QUOTED_RULE,
        r#"(?m)^\s*([a-zA-Z_][a-zA-Z0-9_]*)\s*=\s*'([^'\n]*?)'\s*(?:#.*)?$"#
    );
    assert_eq!(
        UNQUOTED_RULE,
        r#"(?m)^\s*([a-zA-Z_][a-zA-Z0-9_]*)\s*=\s*([^'"\n#]+?)\s*(?:#.*)?$"#
    );
    assert_eq!(ARRAY_RULE, r#"(?ms)^\s*([a-zA-Z_][a-zA-Z0-9_]*)\s*=\s*\(\s*(.*?)\s*\)"#);
    assert_eq!(COMMENT_RULE, r#"(?m)#.*$"#);
    assert_eq!(FALLBACK_RULE, r#"(?m)^([a-zA-Z_][a-zA-Z0-9_]*)\s*=\s*(.*)$"#);
}

#[test]
fn new_record_is_empty() {
    let info = PkgbuildInfo::new();
    assert_eq!(info, PkgbuildInfo::default());
    assert!(info.name.is_empty() && info.version.is_empty() && info.release.is_empty());
    assert!(info.arch.is_empty() && info.depends.is_empty());
    assert!(info.make_depends.is_empty() && info.check_depends.is_empty());
    assert!(!info.has_dependencies());
    assert_eq!(info.full_version(), "-");
    assert!(info.all_dependencies().is_empty());
}

#[test]
fn all_dependencies_keep_order_and_duplicates() {
    let info = PkgbuildInfo {
        depends: strings(&["a", "b"]),
        make_depends: strings(&["b", "c"]),
        check_depends: strings(&["a"]),
        ..Default::default()
    };
    assert_eq!(info.all_dependencies(), strings(&["a", "b", "b", "c", "a"]));
    assert!(info.has_dependencies());
}

#[test]
fn has_dependencies_sees_each_list() {
    let only_check = PkgbuildInfo { check_depends: strings(&["x"]), ..Default::default() };
    assert!(only_check.has_dependencies());
    let only_make = PkgbuildInfo { make_depends: strings(&["x"]), ..Default::default() };
    assert!(only_make.has_dependencies());
    let only_arch = PkgbuildInfo { arch: strings(&["any"]), ..Default::default() };
    assert!(!only_arch.has_dependencies());
}

#[test]
fn complete_manifest_is_parsed() {
    let content = "pkgname=\"demo\"\npkgver=\"1.0.0\"\npkgrel=1\narch=('x86_64' 'aarch64')\ndepends=('glibc')\nmakedepends=('gcc' 'make')\n";
    let info = parse(content).unwrap();
    assert_eq!(
        info,
        PkgbuildInfo {
            name: "demo".to_string(),
            version: "1.0.0".to_string(),
            release: "1".to_string(),
            arch: strings(&["x86_64", "aarch64"]),
            depends: strings(&["glibc"]),
            make_depends: strings(&["gcc", "make"]),
            check_depends: vec![],
        }
    );
    assert_eq!(info.full_version(), "1.0.0-1");
    assert_eq!(info.all_dependencies(), strings(&["glibc", "gcc", "make"]));
}

#[test]
fn multi_line_array_with_inline_comment() {
    let content = "pkgname=a\npkgver=1\npkgrel=1\ndepends=(\n    'dep1'\n    'dep2>=1.0'  # comment\n    'dep3'\n)\n";
    let info = parse(content).unwrap();
    assert_eq!(info.depends, strings(&["dep1", "dep2>=1.0", "dep3"]));
}

#[test]
fn each_quoting_style_yields_the_bare_value() {
    let double = parse("pkgname = \"demo\"  # the name\npkgver=\"1.2\"\npkgrel=\"3\"\n").unwrap();
    assert_eq!((double.name.as_str(), double.version.as_str(), double.release.as_str()), ("demo", "1.2", "3"));
    let single = parse("pkgname='demo'\n  pkgver = '1.2'\npkgrel='3' # rel\n").unwrap();
    assert_eq!((single.name.as_str(), single.version.as_str(), single.release.as_str()), ("demo", "1.2", "3"));
    let bare = parse("pkgname=demo\npkgver =  1.2   \npkgrel=3 # rel\n").unwrap();
    assert_eq!((bare.name.as_str(), bare.version.as_str(), bare.release.as_str()), ("demo", "1.2", "3"));
}

#[test]
fn quoted_value_may_hold_a_hash() {
    let info = parse("pkgname=\"a#b\"\npkgver=\"1.0\"\npkgrel=\"1\"\n").unwrap();
    assert_eq!(info.name, "a#b");
    assert_eq!(info.version, "1.0");
    assert_eq!(info.release, "1");
    let info = parse("pkgname='a#b' # the name\npkgver='1#0'\npkgrel=1#2\n").unwrap();
    assert_eq!(info.name, "a#b");
    assert_eq!(info.version, "1#0");
    assert_eq!(info.release, "1");
}

#[test]
fn parser_is_built_from_the_fixed_rules() {
    assert!(PkgbuildParser::new().is_ok());
}

#[test]
fn first_declaration_of_a_scalar_is_kept() {
    let info = parse("pkgname=first\npkgname=second\npkgver=1\npkgver=2\npkgrel=1\n").unwrap();
    assert_eq!(info.name, "first");
    assert_eq!(info.version, "1");
}

#[test]
fn quoted_declaration_beats_earlier_unquoted_one() {
    let info = parse("pkgname=plain\npkgname=\"quoted\"\npkgver=1\npkgrel=1\n").unwrap();
    assert_eq!(info.name, "quoted");
    let info = parse("pkgname=plain\npkgname='single'\npkgname=\"double\"\npkgver=1\npkgrel=1\n")
        .unwrap();
    assert_eq!(info.name, "double");
}

#[test]
fn last_declaration_of_an_array_is_kept() {
    let info = parse("pkgname=a\npkgver=1\npkgrel=1\ndepends=('x')\ndepends=('y' 'z')\n").unwrap();
    assert_eq!(info.depends, strings(&["y", "z"]));
}

#[test]
fn unknown_keys_are_ignored() {
    let info = parse("pkgname=a\npkgver=1\npkgrel=1\npkgdesc=\"text\"\nsource=('a' 'b')\n").unwrap();
    assert!(info.arch.is_empty() && info.depends.is_empty());
    assert_eq!(info.name, "a");
}

#[test]
fn check_depends_are_extracted() {
    let info = parse("pkgname=a\npkgver=1\npkgrel=1\ncheckdepends=(\"t1\" 't2')\n").unwrap();
    assert_eq!(info.check_depends, strings(&["t1", "t2"]));
    assert!(info.has_dependencies());
}

#[test]
fn parsing_twice_gives_the_same_record() {
    let content = "pkgname=a\npkgver='1'\npkgrel=\"2\"\narch=(any)\ndepends=(\n 'x' # c\n)\n";
    let parser = PkgbuildParser::new().unwrap();
    let first = parser.parse_content(content, "PKGBUILD").unwrap();
    let second = parser.parse_content(content, "PKGBUILD").unwrap();
    assert_eq!(first, second);
    let other = PkgbuildParser::new().unwrap().parse_content(content, "PKGBUILD").unwrap();
    assert_eq!(first, other);
}

#[test]
fn missing_release_is_reported_with_what_was_found() {
    let result = parse("pkgname=demo\npkgver=1.0\n");
    match result {
        Err(BuilderError::PkgbuildParse { message, path }) => {
            assert_eq!(
                message,
                "Missing required variables. Found: pkgname='demo', pkgver='1.0', pkgrel=''. \
                 This suggests the PKGBUILD format is unusual or contains complex variable assignments."
            );
            assert_eq!(path, "PKGBUILD");
        }
        other => panic!("expected a parse error, got {:?}", other),
    }
}

#[test]
fn manifest_without_mandatory_fields_is_rejected() {
    let result = parse("# nothing here\narch=('any')\n");
    match result {
        Err(BuilderError::PkgbuildParse { message, .. }) => {
            assert!(message.contains("pkgname='', pkgver='', pkgrel=''"));
        }
        other => panic!("expected a parse error, got {:?}", other),
    }
    assert!(parse("").is_err());
}

#[test]
fn dynamic_version_is_a_missing_field() {
    let result = parse("pkgname=demo\npkgrel=1\npkgver() {\n  git describe\n}\n");
    assert!(matches!(result, Err(BuilderError::PkgbuildParse { .. })));
}

#[test]
fn fallback_fills_a_gap_left_by_the_strict_rules() {
    let info = parse("pkgname=demo\npkgver=\"1.0\"extra\npkgrel=1\n").unwrap();
    assert_eq!(info.name, "demo");
    assert_eq!(info.version, "1.0\"extra");
    assert_eq!(info.release, "1");
}

#[test]
fn fallback_never_overrides_a_strict_value() {
    let info = parse("pkgname=\"strict\"\npkgname=loose'x\npkgver=1'2\npkgrel=1\n").unwrap();
    assert_eq!(info.name, "strict");
    assert_eq!(info.version, "1'2");
}

#[test]
fn scalar_entries_need_both_groups() {
    let caps = vec![
        vec![Some("k = v".to_string()), Some(" k ".to_string()), Some(" v ".to_string())],
        vec![Some("x".to_string()), None, Some("v".to_string())],
        vec![Some("x".to_string()), Some("k".to_string())],
    ];
    assert_eq!(scalar_entries_of(&caps, 2), vec![("k".to_string(), "v".to_string())]);
    assert_eq!(
        scalar_entries_of(&caps, 1),
        vec![("k".to_string(), "k".to_string()), ("k".to_string(), "k".to_string())]
    );
    assert!(scalar_entries_of(&caps, 7).is_empty());
}

#[test]
fn scalars_are_filled_once() {
    let mut info = PkgbuildInfo { version: "0".to_string(), ..Default::default() };
    let entries = vec![
        ("pkgname".to_string(), "".to_string()),
        ("pkgname".to_string(), "a".to_string()),
        ("pkgname".to_string(), "b".to_string()),
        ("pkgver".to_string(), "9".to_string()),
        ("other".to_string(), "z".to_string()),
        ("pkgrel".to_string(), "4".to_string()),
    ];
    apply_scalars(&mut info, &entries);
    assert_eq!(info.name, "a");
    assert_eq!(info.version, "0");
    assert_eq!(info.release, "4");
}

#[test]
fn lists_are_overwritten() {
    let mut info = PkgbuildInfo { arch: strings(&["old"]), depends: strings(&["keep"]), ..Default::default() };
    let entries = vec![
        ("arch".to_string(), strings(&["a"])),
        ("makedepends".to_string(), strings(&["m"])),
        ("arch".to_string(), vec![]),
        ("checkdepends".to_string(), strings(&["c1", "c2"])),
        ("source".to_string(), strings(&["s"])),
    ];
    apply_lists(&mut info, &entries);
    assert!(info.arch.is_empty());
    assert_eq!(info.depends, strings(&["keep"]));
    assert_eq!(info.make_depends, strings(&["m"]));
    assert_eq!(info.check_depends, strings(&["c1", "c2"]));
}

#[test]
fn items_drop_quotes_and_split_on_whitespace() {
    assert_eq!(items_of("'a' \"b\"\n\t'c''d'  e"), strings(&["a", "b", "cd", "e"]));
    assert!(items_of("  \n ").is_empty());
    assert!(items_of("''").is_empty());
}

#[test]
fn clean_array_content_strips_comments_per_line() {
    let parser = PkgbuildParser::new().unwrap();
    assert_eq!(
        parser.clean_array_content("'a' # one\n# whole line\n'b'#two\n'c'"),
        strings(&["a", "b", "c"])
    );
    assert!(parser.clean_array_content("# only a comment").is_empty());
}

#[test]
fn unquoted_value_trims_whitespace_then_quotes() {
    assert_eq!(unquoted_value("  \"'v'\"  "), "v");
    assert_eq!(unquoted_value("\" v \""), " v ");
    assert_eq!(unquoted_value("a'b"), "a'b");
    assert_eq!(unquoted_value("''"), "");
}

#[test]
fn validate_info_names_the_path() {
    let complete = PkgbuildInfo {
        name: "n".to_string(),
        version: "v".to_string(),
        release: "r".to_string(),
        ..Default::default()
    };
    assert!(validate_info(&complete, "some/PKGBUILD").is_ok());
    let partial = PkgbuildInfo { name: "n".to_string(), ..Default::default() };
    match validate_info(&partial, "some/PKGBUILD") {
        Err(BuilderError::PkgbuildParse { message, path }) => {
            assert!(message.starts_with("Missing required variables. Found: pkgname='n', pkgver='', pkgrel=''."));
            assert_eq!(path, "some/PKGBUILD");
        }
        other => panic!("expected a parse error, got {:?}", other),
    }
}
