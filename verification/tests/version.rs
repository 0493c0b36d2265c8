use pkgmanager_builder::error::BuilderError;
use pkgmanager_builder::pkgbuild::PkgbuildInfo;
use pkgmanager_builder::version::{
    lookup, read_assignment, read_assignments, VersionGenerator, VersionInfo,
};

fn create_test_pkgbuild() -> PkgbuildInfo {
    PkgbuildInfo {
        name: "test-package".to_string(),
        version: "1.2.3".to_string(),
        release: "2".to_string(),
        arch: vec!["x86_64".to_string(), "aarch64".to_string()],
        depends: vec![],
        make_depends: vec![],
        check_depends: vec![],
    }
}

fn sample_info() -> VersionInfo {
    VersionInfo {
        version: "1.0.0".to_string(),
        pkg_release: "1".to_string(),
        full_version: "1.0.0-1".to_string(),
        package_name: "test".to_string(),
        tag_version: "v1.0.0".to_string(),
        build_job_id: "123".to_string(),
        build_date: "2023-01-01T00:00:00Z".to_string(),
        arch: "x86_64".to_string(),
    }
}

#[test]
fn test_version_generator_creation() {
    let generator = VersionGenerator::new();
    assert!(generator.fs_utils.is_dir("."));
}

#[test]
fn test_create_version_info() {
    let generator = VersionGenerator::new();
    let pkgbuild = create_test_pkgbuild();

    let version_info = generator
        .create_version_info(
            &pkgbuild,
            Some("v1.2.3".to_string()),
            Some("12345".to_string()),
            1_431_648_000,
            0,
        )
        .unwrap();

    assert_eq!(version_info.version, "1.2.3");
    assert_eq!(version_info.pkg_release, "2");
    assert_eq!(version_info.full_version, "1.2.3-2");
    assert_eq!(version_info.package_name, "test-package");
    assert_eq!(version_info.tag_version, "v1.2.3");
    assert_eq!(version_info.build_job_id, "12345");
    assert_eq!(version_info.arch, "x86_64 aarch64");
}

#[test]
fn test_format_as_env_file() {
    let generator = VersionGenerator::new();
    let version_info = sample_info();

    let content = generator.format_as_env_file(&version_info).unwrap();

    assert!(content.contains("VERSION=1.0.0"));
    assert!(content.contains("PKG_RELEASE=1"));
    assert!(content.contains("FULL_VERSION=1.0.0-1"));
    assert!(content.contains("PACKAGE_NAME=test"));
    assert!(content.contains("TAG_VERSION=v1.0.0"));
    assert!(content.contains("BUILD_JOB_ID=123"));
    assert!(content.contains("ARCH=\"x86_64\""));
}

#[test]
fn env_file_has_the_exact_layout() {
    let content = VersionGenerator::new().format_as_env_file(&sample_info()).unwrap();
    assert_eq!(
        content,
        "VERSION=1.0.0\nPKG_RELEASE=1\nFULL_VERSION=1.0.0-1\nPACKAGE_NAME=test\nTAG_VERSION=v1.0.0\nBUILD_JOB_ID=123\nBUILD_DATE=2023-01-01T00:00:00Z\nARCH=\"x86_64\"\n"
    );
}

#[test]
fn version_info_falls_back_outside_ci() {
    let info = VersionInfo::of_package(&create_test_pkgbuild(), None, None, "now".to_string());
    assert_eq!(info.tag_version, "1.2.3");
    assert_eq!(info.build_job_id, "local");
    assert_eq!(info.build_date, "now");
    assert_eq!(info.full_version, "1.2.3-2");
    let no_arch = PkgbuildInfo { arch: vec![], ..create_test_pkgbuild() };
    assert_eq!(VersionInfo::of_package(&no_arch, None, None, String::new()).arch, "");
    let one_arch = PkgbuildInfo { arch: vec!["any".to_string()], ..create_test_pkgbuild() };
    assert_eq!(VersionInfo::of_package(&one_arch, None, None, String::new()).arch, "any");
}

#[test]
fn created_version_info_is_dated() {
    let generator = VersionGenerator::new();
    let pkgbuild = create_test_pkgbuild();
    let info = generator.create_version_info(&pkgbuild, None, None, 1_431_648_000, 0).unwrap();
    assert_eq!(info.build_date, "2015-05-15T00:00:00+00:00");
    assert_eq!(info.build_job_id, "local");
    let info = generator.create_version_info(&pkgbuild, None, None, 0, 500_000_000).unwrap();
    assert_eq!(info.build_date, "1970-01-01T00:00:00.500+00:00");
    let info = generator.create_version_info(&pkgbuild, None, None, -1, 0).unwrap();
    assert_eq!(info.build_date, "1969-12-31T23:59:59+00:00");
}

#[test]
fn time_out_of_range_is_an_error() {
    let generator = VersionGenerator::new();
    let pkgbuild = create_test_pkgbuild();
    for (seconds, nanos) in [(i64::MAX, 0), (i64::MIN, 0), (0, 2_000_000_000)] {
        match generator.create_version_info(&pkgbuild, None, None, seconds, nanos) {
            Err(BuilderError::Validation { message }) => {
                assert_eq!(message, "Build time is out of range");
            }
            other => panic!("expected a validation error, got {:?}", other),
        }
    }
    match generator.parse_env_content("VERSION=1\n", i64::MAX, 0) {
        Err(BuilderError::Validation { message }) => {
            assert_eq!(message, "Build time is out of range");
        }
        other => panic!("expected a validation error, got {:?}", other),
    }
    let dated = generator.parse_env_content("BUILD_DATE=then\n", i64::MAX, 0).unwrap();
    assert_eq!(dated.build_date, "then");
}

#[test]
fn written_file_is_read_back() {
    let generator = VersionGenerator::new();
    let generated = VersionInfo::of_package(
        &create_test_pkgbuild(),
        Some("v1.2.3".to_string()),
        None,
        "2024-05-06T07:08:09+00:00".to_string(),
    );
    let content = generator.format_as_env_file(&generated).unwrap();
    let loaded = generator.parse_env_content(&content, 0, 0).unwrap();
    assert_eq!(generated.version, loaded.version);
    assert_eq!(generated.pkg_release, loaded.pkg_release);
    assert_eq!(generated.full_version, loaded.full_version);
    assert_eq!(generated.package_name, loaded.package_name);
    assert_eq!(generated.tag_version, loaded.tag_version);
    assert_eq!(generated.build_job_id, loaded.build_job_id);
    assert_eq!(generated.build_date, loaded.build_date);
    assert_eq!(generated.arch, loaded.arch);
}

#[test]
fn missing_keys_have_defaults() {
    let info = VersionInfo::of_env("", "NOW");
    assert_eq!(info.version, "unknown");
    assert_eq!(info.pkg_release, "1");
    assert_eq!(info.full_version, "unknown-1");
    assert_eq!(info.package_name, "unknown");
    assert_eq!(info.tag_version, "unknown");
    assert_eq!(info.build_job_id, "unknown");
    assert_eq!(info.build_date, "NOW");
    assert_eq!(info.arch, "any");
    let dated = VersionGenerator::new().parse_env_content("# empty\n", 1_431_648_000, 0).unwrap();
    assert_eq!(dated.build_date, "2015-05-15T00:00:00+00:00");
    assert_eq!(dated.arch, "any");
}

#[test]
fn environment_lines_are_read_leniently() {
    let content = "# comment\n\n  VERSION = 2.0 \r\nnot an assignment\nARCH=\"a b\"\nVERSION=3.0\n  #X=1\nEMPTY=\nPATHS=a=b\n";
    assert_eq!(
        read_assignments(content),
        vec![
            ("VERSION".to_string(), "2.0".to_string()),
            ("ARCH".to_string(), "a b".to_string()),
            ("VERSION".to_string(), "3.0".to_string()),
            ("EMPTY".to_string(), "".to_string()),
            ("PATHS".to_string(), "a=b".to_string()),
        ]
    );
    let info = VersionInfo::of_env(content, "n");
    assert_eq!(info.version, "3.0");
    assert_eq!(info.arch, "a b");
}

#[test]
fn single_lines_are_classified() {
    assert_eq!(read_assignment("K=V"), Some(("K".to_string(), "V".to_string())));
    assert_eq!(read_assignment(" K = \" V \" "), Some(("K".to_string(), " V ".to_string())));
    assert_eq!(read_assignment("K=\"\"\"V\""), Some(("K".to_string(), "V".to_string())));
    assert_eq!(read_assignment("K='V'"), Some(("K".to_string(), "'V'".to_string())));
    assert_eq!(read_assignment("=V"), Some(("".to_string(), "V".to_string())));
    assert_eq!(read_assignment("#K=V"), None);
    assert_eq!(read_assignment("   "), None);
    assert_eq!(read_assignment("KV"), None);
}

#[test]
fn lookup_takes_the_last_assignment() {
    let entries = vec![
        ("A".to_string(), "1".to_string()),
        ("B".to_string(), "2".to_string()),
        ("A".to_string(), "3".to_string()),
    ];
    assert_eq!(lookup(&entries, "A"), Some("3".to_string()));
    assert_eq!(lookup(&entries, "B"), Some("2".to_string()));
    assert_eq!(lookup(&entries, "C"), None);
    assert_eq!(lookup(&vec![], "A"), None);
}
