//! Configuration of the package builder.

use vstd::prelude::*;
use vstd::string::StringExecFns;
use crate::cli::{Args, Command};
use crate::error::BuilderError;
use crate::fs::FileSystemUtils;
use crate::text::{concat_str, copy_strings};

verus! {

/// Main configuration structure.
#[derive(Debug, Clone)]
pub struct Config {
    /// Enable debug logging.
    pub debug: bool,
    /// Working directory for operations.
    pub work_dir: String,
    /// PKGBUILD file path.
    pub pkgbuild_path: String,
    /// Package manager configuration.
    pub package_manager: PackageManagerConfig,
    /// Build configuration.
    pub build: BuildConfig,
    /// Artifact configuration.
    pub artifacts: ArtifactConfig,
}

/// Package manager configuration.
#[derive(Debug, Clone)]
pub struct PackageManagerConfig {
    /// Primary package manager (paru, yay, pacman).
    pub primary: String,
    /// Fallback package manager.
    pub fallback: Option<String>,
    /// Additional arguments for package installation.
    pub install_args: Vec<String>,
    /// Handle rust/rustup conflicts.
    pub handle_rust_conflict: bool,
}

/// Build configuration.
#[derive(Debug, Clone)]
pub struct BuildConfig {
    /// Clean previous builds.
    pub clean: bool,
    /// Sign packages.
    pub sign: bool,
    /// Enable ccache.
    pub use_ccache: bool,
    /// ccache directory.
    pub ccache_dir: String,
    /// Additional build arguments.
    pub build_args: Vec<String>,
}

/// Artifact configuration.
#[derive(Debug, Clone)]
pub struct ArtifactConfig {
    /// Output directory for artifacts.
    pub output_dir: String,
    /// Version file path.
    pub version_file: String,
    /// File patterns to collect.
    pub patterns: Vec<String>,
    /// Whether to preserve source files.
    pub preserve_sources: bool,
}

/// The mathematical content of a [`PackageManagerConfig`].
pub struct PackageManagerView {
    pub primary: Seq<char>,
    pub fallback: Option<Seq<char>>,
    pub install_args: Seq<Seq<char>>,
    pub handle_rust_conflict: bool,
}

/// The mathematical content of a [`BuildConfig`].
pub struct BuildView {
    pub clean: bool,
    pub sign: bool,
    pub use_ccache: bool,
    pub ccache_dir: Seq<char>,
    pub build_args: Seq<Seq<char>>,
}

/// The mathematical content of an [`ArtifactConfig`].
pub struct ArtifactView {
    pub output_dir: Seq<char>,
    pub version_file: Seq<char>,
    pub patterns: Seq<Seq<char>>,
    pub preserve_sources: bool,
}

/// The mathematical content of a [`Config`].
pub struct ConfigView {
    pub debug: bool,
    pub work_dir: Seq<char>,
    pub pkgbuild_path: Seq<char>,
    pub package_manager: PackageManagerView,
    pub build: BuildView,
    pub artifacts: ArtifactView,
}

impl View for PackageManagerConfig {
    type V = PackageManagerView;

    open spec fn view(&self) -> PackageManagerView {
        PackageManagerView {
            primary: self.primary@,
            fallback: self.fallback.deep_view(),
            install_args: self.install_args.deep_view(),
            handle_rust_conflict: self.handle_rust_conflict,
        }
    }
}

impl View for BuildConfig {
    type V = BuildView;

    open spec fn view(&self) -> BuildView {
        BuildView {
            clean: self.clean,
            sign: self.sign,
            use_ccache: self.use_ccache,
            ccache_dir: self.ccache_dir@,
            build_args: self.build_args.deep_view(),
        }
    }
}

impl View for ArtifactConfig {
    type V = ArtifactView;

    open spec fn view(&self) -> ArtifactView {
        ArtifactView {
            output_dir: self.output_dir@,
            version_file: self.version_file@,
            patterns: self.patterns.deep_view(),
            preserve_sources: self.preserve_sources,
        }
    }
}

impl View for Config {
    type V = ConfigView;

    open spec fn view(&self) -> ConfigView {
        ConfigView {
            debug: self.debug,
            work_dir: self.work_dir@,
            pkgbuild_path: self.pkgbuild_path@,
            package_manager: self.package_manager@,
            build: self.build@,
            artifacts: self.artifacts@,
        }
    }
}

impl PackageManagerView {
    /// paru first, pacman as fallback, non-interactive installation of what
    /// is needed, as dependencies.
    pub open spec fn standard() -> PackageManagerView {
        PackageManagerView {
            primary: "paru"@,
            fallback: Some("pacman"@),
            install_args: seq!["-S"@, "--noconfirm"@, "--needed"@, "--asdeps"@],
            handle_rust_conflict: true,
        }
    }
}

impl BuildView {
    /// An unsigned build with ccache, without cleaning first.
    pub open spec fn standard() -> BuildView {
        BuildView {
            clean: false,
            sign: false,
            use_ccache: true,
            ccache_dir: "/home/builder/.ccache"@,
            build_args: seq!["-B"@, "--noconfirm"@],
        }
    }
}

impl ArtifactView {
    /// Packages, logs and the two source files go to `artifacts`.
    pub open spec fn standard() -> ArtifactView {
        ArtifactView {
            output_dir: "artifacts"@,
            version_file: "version.env"@,
            patterns: seq!["*.pkg.tar.*"@, "*.log"@, "PKGBUILD"@, ".SRCINFO"@],
            preserve_sources: true,
        }
    }
}

impl ConfigView {
    /// The configuration used when nothing is said on the command line.
    pub open spec fn standard() -> ConfigView {
        ConfigView {
            debug: false,
            work_dir: "."@,
            pkgbuild_path: "PKGBUILD"@,
            package_manager: PackageManagerView::standard(),
            build: BuildView::standard(),
            artifacts: ArtifactView::standard(),
        }
    }

    /// The configuration that a command line asks for.
    pub open spec fn from_args(args: Args) -> ConfigView {
        let base = ConfigView { debug: args.debug, ..ConfigView::standard() };
        match args.command {
            Command::Deps => base,
            Command::Build { clean, sign } => ConfigView {
                build: BuildView { clean, sign, ..base.build },
                ..base
            },
            Command::Artifacts { output_dir } => ConfigView {
                artifacts: ArtifactView { output_dir: output_dir@, ..base.artifacts },
                ..base
            },
            Command::Version { output_file } => ConfigView {
                artifacts: ArtifactView { version_file: output_file@, ..base.artifacts },
                ..base
            },
        }
    }

    /// The build arguments handed to paru: the configured ones, the package
    /// directory, and the request to sign if signing is on.
    pub open spec fn build_arguments(self) -> Seq<Seq<char>> {
        let args = self.build.build_args.push("./"@);
        if self.build.sign {
            args.push("--sign"@)
        } else {
            args
        }
    }
}

impl Default for PackageManagerConfig {
    fn default() -> (r: Self)
        ensures
            r@ == PackageManagerView::standard(),
    {
        let mut install_args: Vec<String> = Vec::new();
        install_args.push(String::from_str("-S"));
        install_args.push(String::from_str("--noconfirm"));
        install_args.push(String::from_str("--needed"));
        install_args.push(String::from_str("--asdeps"));
        let r = PackageManagerConfig {
            primary: String::from_str("paru"),
            fallback: Some(String::from_str("pacman")),
            install_args,
            handle_rust_conflict: true,
        };
        assert(r.install_args.deep_view() =~= PackageManagerView::standard().install_args);
        r
    }
}

impl Default for BuildConfig {
    fn default() -> (r: Self)
        ensures
            r@ == BuildView::standard(),
    {
        let mut build_args: Vec<String> = Vec::new();
        build_args.push(String::from_str("-B"));
        build_args.push(String::from_str("--noconfirm"));
        let r = BuildConfig {
            clean: false,
            sign: false,
            use_ccache: true,
            ccache_dir: String::from_str("/home/builder/.ccache"),
            build_args,
        };
        assert(r.build_args.deep_view() =~= BuildView::standard().build_args);
        r
    }
}

impl Default for ArtifactConfig {
    fn default() -> (r: Self)
        ensures
            r@ == ArtifactView::standard(),
    {
        let mut patterns: Vec<String> = Vec::new();
        patterns.push(String::from_str("*.pkg.tar.*"));
        patterns.push(String::from_str("*.log"));
        patterns.push(String::from_str("PKGBUILD"));
        patterns.push(String::from_str(".SRCINFO"));
        let r = ArtifactConfig {
            output_dir: String::from_str("artifacts"),
            version_file: String::from_str("version.env"),
            patterns,
            preserve_sources: true,
        };
        assert(r.patterns.deep_view() =~= ArtifactView::standard().patterns);
        r
    }
}

impl Default for Config {
    fn default() -> (r: Self)
        ensures
            r@ == ConfigView::standard(),
    {
        Config {
            debug: false,
            work_dir: String::from_str("."),
            pkgbuild_path: String::from_str("PKGBUILD"),
            package_manager: PackageManagerConfig::default(),
            build: BuildConfig::default(),
            artifacts: ArtifactConfig::default(),
        }
    }
}

/// Whether `e` reports that the file at `path` is missing.
pub open spec fn is_missing_pkgbuild(e: BuilderError, path: Seq<char>) -> bool {
    e matches BuilderError::Validation { message } && message@ == "PKGBUILD file not found: "@
        + path
}

/// Whether `e` reports that the directory at `path` is missing.
pub open spec fn is_missing_work_dir(e: BuilderError, path: Seq<char>) -> bool {
    e matches BuilderError::Validation { message } && message@
        == "Working directory not found: "@ + path
}

impl Config {
    /// The configuration that `args` asks for, without any check against the
    /// file system.
    pub fn configure(args: &Args) -> (r: Self)
        ensures
            r@ == ConfigView::from_args(*args),
    {
        let mut config = Config::default();
        config.debug = args.debug;
        match &args.command {
            Command::Build { clean, sign } => {
                config.build.clean = *clean;
                config.build.sign = *sign;
            },
            Command::Artifacts { output_dir } => {
                config.artifacts.output_dir = output_dir.clone();
            },
            Command::Version { output_file } => {
                config.artifacts.version_file = output_file.clone();
            },
            Command::Deps => {},
        }
        config
    }

    /// Creates the configuration from command line arguments and validates
    /// it. Whether validation passes depends on the file system; whenever it
    /// does, the result is the configuration that `args` asks for.
    pub fn from_args(args: &Args) -> (r: Result<Self, BuilderError>)
        ensures
            r matches Ok(c) ==> c@ == ConfigView::from_args(*args),
            r matches Err(e) ==> is_missing_pkgbuild(e, ConfigView::from_args(*args).pkgbuild_path)
                || is_missing_work_dir(e, ConfigView::from_args(*args).work_dir),
    {
        let config = Config::configure(args);
        match config.validate() {
            Ok(()) => Ok(config),
            Err(e) => Err(e),
        }
    }

    /// Validates the configuration, given whether the PKGBUILD and the
    /// working directory exist. The PKGBUILD is looked at first.
    pub fn validate_with(&self, pkgbuild_exists: bool, work_dir_exists: bool) -> (r: Result<
        (),
        BuilderError,
    >)
        ensures
            r is Ok <==> pkgbuild_exists && work_dir_exists,
            r matches Err(e) ==> (if !pkgbuild_exists {
                is_missing_pkgbuild(e, self.pkgbuild_path@)
            } else {
                is_missing_work_dir(e, self.work_dir@)
            }),
    {
        if !pkgbuild_exists {
            return Err(
                BuilderError::validation(
                    concat_str("PKGBUILD file not found: ", self.pkgbuild_path.as_str()),
                ),
            );
        }
        if !work_dir_exists {
            return Err(
                BuilderError::validation(
                    concat_str("Working directory not found: ", self.work_dir.as_str()),
                ),
            );
        }
        Ok(())
    }

    /// Validates the configuration against the file system: the PKGBUILD
    /// and the working directory must both exist.
    pub fn validate(&self) -> (r: Result<(), BuilderError>)
        ensures
            r matches Err(e) ==> is_missing_pkgbuild(e, self.pkgbuild_path@) || is_missing_work_dir(
                e,
                self.work_dir@,
            ),
    {
        let fs = FileSystemUtils::new();
        let pkgbuild_exists = fs.path_exists(self.pkgbuild_path.as_str());
        let work_dir_exists = fs.path_exists(self.work_dir.as_str());
        self.validate_with(pkgbuild_exists, work_dir_exists)
    }

    /// The package manager command with its arguments.
    pub fn get_package_manager_cmd(&self) -> (r: (String, Vec<String>))
        ensures
            r.0@ == self@.package_manager.primary,
            r.1.deep_view() == self@.package_manager.install_args,
    {
        let cmd_args = copy_strings(&self.package_manager.install_args);
        (self.package_manager.primary.clone(), cmd_args)
    }

    /// The build command with its arguments.
    pub fn get_build_cmd(&self) -> (r: (String, Vec<String>))
        ensures
            r.0@ == "paru"@,
            r.1.deep_view() == self@.build_arguments(),
    {
        let mut args = copy_strings(&self.build.build_args);
        let ghost configured = args.deep_view();
        args.push(String::from_str("./"));
        assert(args.deep_view() =~= configured.push("./"@));
        if self.build.sign {
            let ghost before = args.deep_view();
            args.push(String::from_str("--sign"));
            assert(args.deep_view() =~= before.push("--sign"@));
        }
        (String::from_str("paru"), args)
    }
}

} // verus!
