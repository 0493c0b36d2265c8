use pkgmanager_builder::builder::PackageBuilder;
use pkgmanager_builder::config::{ArtifactConfig, BuildConfig, Config, PackageManagerConfig};
use pkgmanager_builder::error::BuilderError;
use pkgmanager_builder::pkgbuild::PkgbuildInfo;

fn strings(items: &[&str]) -> Vec<String> {
    items.iter().map(|s| s.to_string()).collect()
}

fn create_test_config() -> Config {
    Config {
        debug: true,
        work_dir: ".".to_string(),
        pkgbuild_path: "PKGBUILD".into(),
        package_manager: PackageManagerConfig::default(),
        build: BuildConfig::default(),
        artifacts: ArtifactConfig::default(),
    }
}

#[test]
fn test_handle_rust_conflict() {
    for rustup_available in [false, true] {
        let config = create_test_config();
        let builder = PackageBuilder::new(config);

        let deps = vec!["rust".to_string(), "cargo".to_string(), "other-dep".to_string()];

        let filtered = builder.handle_rust_conflict(deps, rustup_available);

        assert!(filtered.contains(&"other-dep".to_string()));
        assert!(
            filtered.contains(&"rustup".to_string()) || !filtered.contains(&"cargo".to_string())
        );
    }
}

#[test]
fn test_builder_creation() {
    let config = create_test_config();
    let builder = PackageBuilder::new(config);
    assert!(!builder.config.build.clean);
}

#[test]
fn builder_runner_follows_the_debug_flag() {
    assert!(PackageBuilder::new(create_test_config()).process_runner.debug);
    assert!(!PackageBuilder::new(Config::default()).process_runner.debug);
}

#[test]
fn rust_conflict_is_settled_exactly() {
    let builder = PackageBuilder::new(create_test_config());
    let deps = strings(&["rust", "cargo", "a", "rustup", "cargo", "b"]);
    assert_eq!(builder.handle_rust_conflict(deps.clone(), true), strings(&["a", "b"]));
    assert_eq!(
        builder.handle_rust_conflict(deps, false),
        strings(&["cargo", "a", "cargo", "b", "rustup"])
    );
    let plain = strings(&["cargo", "a"]);
    assert_eq!(builder.handle_rust_conflict(plain.clone(), true), plain);
    assert_eq!(builder.handle_rust_conflict(plain.clone(), false), plain);
    assert_eq!(builder.handle_rust_conflict(strings(&["rustup"]), false), strings(&["rustup"]));
    assert!(builder.handle_rust_conflict(strings(&["rustup"]), true).is_empty());
    assert!(builder.handle_rust_conflict(vec![], true).is_empty());
}

#[test]
fn rust_is_noticed() {
    assert!(PackageBuilder::mentions_rust(&strings(&["a", "rust"])));
    assert!(PackageBuilder::mentions_rust(&strings(&["rustup"])));
    assert!(!PackageBuilder::mentions_rust(&strings(&["cargo", "rustc", "Rust"])));
    assert!(!PackageBuilder::mentions_rust(&vec![]));
}

#[test]
fn dependencies_follow_the_configuration() {
    let pkgbuild = PkgbuildInfo {
        depends: strings(&["glibc", "rust"]),
        make_depends: strings(&["cargo"]),
        check_depends: strings(&["check"]),
        ..Default::default()
    };
    let builder = PackageBuilder::new(create_test_config());
    assert_eq!(builder.dependencies_to_install(&pkgbuild, true), strings(&["glibc", "check"]));
    assert_eq!(
        builder.dependencies_to_install(&pkgbuild, false),
        strings(&["glibc", "cargo", "check", "rustup"])
    );
    let mut config = create_test_config();
    config.package_manager.handle_rust_conflict = false;
    let plain = PackageBuilder::new(config);
    assert_eq!(
        plain.dependencies_to_install(&pkgbuild, true),
        strings(&["glibc", "rust", "cargo", "check"])
    );
    assert!(builder.dependencies_to_install(&PkgbuildInfo::new(), false).is_empty());
}

#[test]
fn installation_is_planned() {
    let with_rust = PkgbuildInfo {
        depends: strings(&["glibc"]),
        make_depends: strings(&["rust", "cargo"]),
        ..Default::default()
    };
    let only_rustup = PkgbuildInfo { depends: strings(&["rustup"]), ..Default::default() };
    let plain = PkgbuildInfo { depends: strings(&["glibc"]), ..Default::default() };
    let builder = PackageBuilder::new(create_test_config());
    assert!(builder.needs_rustup_probe(&with_rust));
    assert!(builder.needs_rustup_probe(&only_rustup));
    assert!(!builder.needs_rustup_probe(&plain));
    assert!(!builder.needs_rustup_probe(&PkgbuildInfo::new()));
    assert_eq!(builder.install_plan(&with_rust, true), Some(strings(&["glibc"])));
    assert_eq!(
        builder.install_plan(&with_rust, false),
        Some(strings(&["glibc", "cargo", "rustup"]))
    );
    assert_eq!(builder.install_plan(&only_rustup, true), None);
    assert_eq!(builder.install_plan(&only_rustup, false), Some(strings(&["rustup"])));
    assert_eq!(builder.install_plan(&PkgbuildInfo::new(), false), None);
    let mut config = create_test_config();
    config.package_manager.handle_rust_conflict = false;
    let keeping = PackageBuilder::new(config);
    assert!(!keeping.needs_rustup_probe(&with_rust));
    assert_eq!(keeping.install_plan(&only_rustup, true), Some(strings(&["rustup"])));
}

#[test]
fn install_commands_are_assembled() {
    let builder = PackageBuilder::new(create_test_config());
    let packages = strings(&["a", "b"]);
    let (cmd, args) = builder.install_command(&packages);
    assert_eq!(cmd, "paru");
    assert_eq!(args, strings(&["-S", "--noconfirm", "--needed", "--asdeps", "a", "b"]));
    assert_eq!(
        builder.fallback_arguments("pacman", &packages),
        strings(&["pacman", "-S", "--noconfirm", "--needed", "--asdeps", "a", "b"])
    );
    assert_eq!(
        builder.after_primary_failure(&packages).unwrap(),
        strings(&["pacman", "-S", "--noconfirm", "--needed", "--asdeps", "a", "b"])
    );
}

#[test]
fn failures_name_the_packages() {
    let mut config = create_test_config();
    config.package_manager.fallback = None;
    config.package_manager.primary = "yay".to_string();
    let builder = PackageBuilder::new(config);
    let packages = strings(&["a", "b"]);
    match builder.after_primary_failure(&packages) {
        Err(BuilderError::Dependency { message, dependencies }) => {
            assert_eq!(message, "Failed to install dependencies with yay");
            assert_eq!(dependencies, packages);
        }
        other => panic!("expected a dependency error, got {:?}", other),
    }
    match PackageBuilder::fallback_failure(&packages) {
        BuilderError::Dependency { message, dependencies } => {
            assert_eq!(message, "All package managers failed to install dependencies");
            assert_eq!(dependencies, packages);
        }
        other => panic!("expected a dependency error, got {:?}", other),
    }
}

#[test]
fn build_environment_follows_ccache() {
    let builder = PackageBuilder::new(create_test_config());
    assert_eq!(
        builder.build_environment(),
        vec![("CCACHE_DIR".to_string(), "/home/builder/.ccache".to_string())]
    );
    let mut config = create_test_config();
    config.build.use_ccache = false;
    assert!(PackageBuilder::new(config).build_environment().is_empty());
}

#[test]
fn build_results_are_judged() {
    let files = strings(&["a-1-1-any.pkg.tar.zst"]);
    assert_eq!(PackageBuilder::check_packages(files.clone()).unwrap(), files);
    assert_eq!(
        PackageBuilder::check_packages(strings(&[
            "b-1-1-any.pkg.tar.zst",
            "a-2-1-any.pkg.tar.zst",
            "b-1-1-any.pkg.tar.xz",
            "a-10-1-any.pkg.tar.zst",
            "b-1-1-any.pkg.tar.zst",
        ]))
        .unwrap(),
        strings(&[
            "a-10-1-any.pkg.tar.zst",
            "a-2-1-any.pkg.tar.zst",
            "b-1-1-any.pkg.tar.xz",
            "b-1-1-any.pkg.tar.zst",
            "b-1-1-any.pkg.tar.zst",
        ])
    );
    match PackageBuilder::check_packages(vec![]) {
        Err(BuilderError::Build { message }) => {
            assert!(message.starts_with(
                "No package files (*.pkg.tar.*) were generated by the build process.\n\nThis usually means:\n"
            ));
            assert!(message.contains("• The PKGBUILD has a conditional 'exit 0'\n"));
            assert!(message.ends_with(
                "Please review the build output carefully for warnings or skipped steps."
            ));
            assert_eq!(message.lines().count(), 9);
        }
        other => panic!("expected a build error, got {:?}", other),
    }
    let cause = BuilderError::process("paru -B".to_string(), Some(1), String::new(), String::new());
    match PackageBuilder::build_failure(&cause) {
        BuilderError::Build { message } => {
            assert_eq!(message, "Package build failed: Process error: paru -B failed");
        }
        other => panic!("expected a build error, got {:?}", other),
    }
    match PackageBuilder::search_failure("bad pattern") {
        BuilderError::Build { message } => {
            assert_eq!(message, "Failed to search for package files: bad pattern");
        }
        other => panic!("expected a build error, got {:?}", other),
    }
    assert_eq!(PackageBuilder::list_arguments(&files), strings(&["-la", "a-1-1-any.pkg.tar.zst"]));
    assert_eq!(PackageBuilder::list_arguments(&vec![]), strings(&["-la"]));
}
