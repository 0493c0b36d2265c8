//! Package building: which dependencies are installed, with which commands,
//! and what the results of those commands mean.

use vstd::prelude::*;
use vstd::string::StringExecFns;
use crate::config::Config;
use crate::error::BuilderError;
use crate::pkgbuild::{InfoView, PkgbuildInfo};
use crate::process::ProcessRunner;
use crate::text::{ascending, concat_str, extend_with, same_text, sort_texts};

verus! {

/// Package builder that handles dependencies and compilation.
pub struct PackageBuilder {
    /// The configuration that the builder works under.
    pub config: Config,
    /// Runner for the commands that the builder issues.
    pub process_runner: ProcessRunner,
}

/// Whether `dep` names the Rust toolchain: `rust` or `rustup`.
pub open spec fn is_rust_toolchain(dep: Seq<char>) -> bool {
    dep == "rust"@ || dep == "rustup"@
}

/// Whether some dependency names the Rust toolchain.
pub open spec fn mentions_rust(deps: Seq<Seq<char>>) -> bool {
    exists|i: int| 0 <= i < deps.len() && is_rust_toolchain(#[trigger] deps[i])
}

/// The dependencies once the clash between `rust` and `rustup` is settled.
/// Both names are taken out. Where one of them was asked for, rustup stands
/// in: if it is available already, `cargo` is dropped too, since rustup
/// brings it; if not, `rustup` is put at the end of the list.
pub open spec fn without_rust_conflict(deps: Seq<Seq<char>>, rustup_available: bool) -> Seq<
    Seq<char>,
> {
    let others = deps.filter(|d: Seq<char>| !is_rust_toolchain(d));
    if !mentions_rust(deps) {
        others
    } else if rustup_available {
        others.filter(|d: Seq<char>| d != "cargo"@)
    } else {
        others.push("rustup"@)
    }
}

/// The packages to install for a PKGBUILD: nothing at all without
/// dependencies; else all of them, with the rust conflict settled if
/// `handle_rust_conflict` is on.
pub open spec fn packages_to_install(
    info: InfoView,
    handle_rust_conflict: bool,
    rustup_available: bool,
) -> Seq<Seq<char>> {
    if handle_rust_conflict {
        without_rust_conflict(info.all_dependencies(), rustup_available)
    } else {
        info.all_dependencies()
    }
}

/// The text of the error for a build that left no package file behind.
pub open spec fn no_packages_message() -> Seq<char> {
    "No package files (*.pkg.tar.*) were generated by the build process.\n\nThis usually means:\n• The build was skipped (e.g. due to existing src/ or pkg/ directories)\n• The PKGBUILD has a conditional 'exit 0'\n• The build failed silently (check logs above)\n• Dynamic pkgver/pkgrel caused unexpected naming\n\nPlease review the build output carefully for warnings or skipped steps."@
}

/// The strings of `items` that differ from `word`.
fn drop_word(items: &Vec<String>, word: &str) -> (r: Vec<String>)
    ensures
        r.deep_view() == items.deep_view().filter(|d: Seq<char>| d != word@),
{
    let mut out: Vec<String> = Vec::new();
    let mut i: usize = 0;
    let ghost keep = |d: Seq<char>| d != word@;
    assert(items.deep_view().take(0) =~= Seq::<Seq<char>>::empty());
    assert(out.deep_view() =~= Seq::<Seq<char>>::empty());
    proof {
        reveal(Seq::filter);
    }
    while i < items.len()
        invariant
            i <= items.len(),
            keep == |d: Seq<char>| d != word@,
            out.deep_view() == items.deep_view().take(i as int).filter(keep),
        decreases items.len() - i,
    {
        let ghost before = out.deep_view();
        proof {
            reveal(Seq::filter);
            let next = items.deep_view().take(i + 1);
            assert(next.drop_last() =~= items.deep_view().take(i as int));
            assert(next.last() == items@[i as int]@);
        }
        if !same_text(items[i].as_str(), word) {
            out.push(items[i].clone());
            assert(out.deep_view() =~= before.push(items@[i as int]@));
        }
        i += 1;
    }
    assert(items.deep_view().take(items.len() as int) =~= items.deep_view());
    out
}

impl PackageBuilder {
    /// A new package builder with the given configuration.
    pub fn new(config: Config) -> (r: Self)
        ensures
            r.config == config,
            r.process_runner.debug == config.debug,
    {
        PackageBuilder { process_runner: ProcessRunner::new(config.debug), config }
    }

    /// Whether some dependency names the Rust toolchain, so that the
    /// availability of rustup matters.
    pub fn mentions_rust(deps: &Vec<String>) -> (r: bool)
        ensures
            r == mentions_rust(deps.deep_view()),
    {
        let mut i: usize = 0;
        while i < deps.len()
            invariant
                i <= deps.len(),
                forall|j: int| 0 <= j < i ==> !is_rust_toolchain(#[trigger] deps.deep_view()[j]),
            decreases deps.len() - i,
        {
            if same_text(deps[i].as_str(), "rust") || same_text(deps[i].as_str(), "rustup") {
                assert(is_rust_toolchain(deps.deep_view()[i as int]));
                return true;
            }
            i += 1;
        }
        false
    }

    /// Settles the clash between the `rust` and `rustup` packages, given
    /// whether rustup is available already.
    pub fn handle_rust_conflict(&self, deps: Vec<String>, rustup_available: bool) -> (r: Vec<
        String,
    >)
        ensures
            r.deep_view() == without_rust_conflict(deps.deep_view(), rustup_available),
    {
        let no_rust = drop_word(&deps, "rust");
        let mut filtered = drop_word(&no_rust, "rustup");
        proof {
            lemma_filter_twice(deps.deep_view());
        }
        if PackageBuilder::mentions_rust(&deps) {
            if rustup_available {
                filtered = drop_word(&filtered, "cargo");
            } else {
                let ghost before = filtered.deep_view();
                filtered.push(String::from_str("rustup"));
                assert(filtered.deep_view() =~= before.push("rustup"@));
            }
        }
        filtered
    }

    /// The packages to install for `pkgbuild`, given whether rustup is
    /// available already.
    pub fn dependencies_to_install(&self, pkgbuild: &PkgbuildInfo, rustup_available: bool) -> (r:
        Vec<String>)
        ensures
            r.deep_view() == packages_to_install(
                pkgbuild@,
                self.config.package_manager.handle_rust_conflict,
                rustup_available,
            ),
    {
        let all_deps = pkgbuild.all_dependencies();
        if self.config.package_manager.handle_rust_conflict {
            self.handle_rust_conflict(all_deps, rustup_available)
        } else {
            all_deps
        }
    }

    /// Whether it matters to the installation if rustup is available: the
    /// rust conflict is to be handled and some dependency of `pkgbuild`
    /// names the Rust toolchain.
    pub fn needs_rustup_probe(&self, pkgbuild: &PkgbuildInfo) -> (r: bool)
        ensures
            r == (self.config.package_manager.handle_rust_conflict && mentions_rust(
                pkgbuild@.all_dependencies(),
            )),
    {
        if !self.config.package_manager.handle_rust_conflict {
            return false;
        }
        let all_deps = pkgbuild.all_dependencies();
        PackageBuilder::mentions_rust(&all_deps)
    }

    /// What is to be installed for `pkgbuild`, given whether rustup is
    /// available already: the packages, or nothing where no package is left
    /// to install.
    pub fn install_plan(&self, pkgbuild: &PkgbuildInfo, rustup_available: bool) -> (r: Option<
        Vec<String>,
    >)
        ensures
            r is Some <==> packages_to_install(
                pkgbuild@,
                self.config.package_manager.handle_rust_conflict,
                rustup_available,
            ).len() > 0,
            r matches Some(packages) ==> packages.deep_view() == packages_to_install(
                pkgbuild@,
                self.config.package_manager.handle_rust_conflict,
                rustup_available,
            ),
    {
        let packages = self.dependencies_to_install(pkgbuild, rustup_available);
        if packages.is_empty() {
            None
        } else {
            Some(packages)
        }
    }

    /// The command that installs `packages` with the primary package
    /// manager: the manager, and its arguments followed by the packages.
    pub fn install_command(&self, packages: &Vec<String>) -> (r: (String, Vec<String>))
        ensures
            r.0@ == self.config@.package_manager.primary,
            r.1.deep_view() == self.config@.package_manager.install_args + packages.deep_view(),
    {
        let (cmd, mut args) = self.config.get_package_manager_cmd();
        extend_with(&mut args, packages);
        (cmd, args)
    }

    /// The arguments of `sudo` that install `packages` with the fallback
    /// package manager: the manager, its arguments, the packages.
    pub fn fallback_arguments(&self, fallback: &str, packages: &Vec<String>) -> (r: Vec<String>)
        ensures
            r.deep_view() == seq![fallback@] + self.config@.package_manager.install_args
                + packages.deep_view(),
    {
        let mut args: Vec<String> = Vec::new();
        args.push(String::from_str(fallback));
        assert(args.deep_view() =~= seq![fallback@]);
        extend_with(&mut args, &self.config.package_manager.install_args);
        extend_with(&mut args, packages);
        args
    }

    /// What follows a failure of the primary package manager: the `sudo`
    /// arguments for the fallback manager if one is configured, and a
    /// dependency error naming `packages` if none is.
    pub fn after_primary_failure(&self, packages: &Vec<String>) -> (r: Result<
        Vec<String>,
        BuilderError,
    >)
        ensures
            r is Ok <==> self.config@.package_manager.fallback is Some,
            r matches Ok(args) ==> args.deep_view() == seq![
                self.config@.package_manager.fallback->0,
            ] + self.config@.package_manager.install_args + packages.deep_view(),
            r matches Err(e) ==> {
                &&& e matches BuilderError::Dependency { message, dependencies }
                &&& message@ == "Failed to install dependencies with "@
                    + self.config@.package_manager.primary
                &&& dependencies.deep_view() == packages.deep_view()
            },
    {
        match &self.config.package_manager.fallback {
            Some(fallback) => Ok(self.fallback_arguments(fallback.as_str(), packages)),
            None => {
                let mut named: Vec<String> = Vec::new();
                assert(named.deep_view() =~= Seq::<Seq<char>>::empty());
                extend_with(&mut named, packages);
                assert(named.deep_view() =~= packages.deep_view());
                Err(
                    BuilderError::dependency(
                        concat_str(
                            "Failed to install dependencies with ",
                            self.config.package_manager.primary.as_str(),
                        ),
                        named,
                    ),
                )
            },
        }
    }

    /// The error for a fallback package manager that failed as well.
    pub fn fallback_failure(packages: &Vec<String>) -> (r: BuilderError)
        ensures
            r matches BuilderError::Dependency { message, dependencies } && message@
                == "All package managers failed to install dependencies"@
                && dependencies.deep_view() == packages.deep_view(),
    {
        let mut named: Vec<String> = Vec::new();
        assert(named.deep_view() =~= Seq::<Seq<char>>::empty());
        extend_with(&mut named, packages);
        assert(named.deep_view() =~= packages.deep_view());
        BuilderError::dependency(
            String::from_str("All package managers failed to install dependencies"),
            named,
        )
    }

    /// The environment of the build command: the ccache directory if ccache
    /// is on, and nothing otherwise.
    pub fn build_environment(&self) -> (r: Vec<(String, String)>)
        ensures
            r.deep_view() == (if self.config.build.use_ccache {
                seq![("CCACHE_DIR"@, self.config.build.ccache_dir@)]
            } else {
                Seq::empty()
            }),
    {
        let mut env_vars: Vec<(String, String)> = Vec::new();
        if self.config.build.use_ccache {
            env_vars.push((String::from_str("CCACHE_DIR"), self.config.build.ccache_dir.clone()));
            assert(env_vars.deep_view() =~= seq![("CCACHE_DIR"@, self.config.build.ccache_dir@)]);
        } else {
            assert(env_vars.deep_view() =~= Seq::<(Seq<char>, Seq<char>)>::empty());
        }
        env_vars
    }

    /// The error for a build command that failed with `cause`.
    pub fn build_failure(cause: &BuilderError) -> (r: BuilderError)
        ensures
            r matches BuilderError::Build { message } && message@ == "Package build failed: "@
                + cause.description(),
    {
        let text = cause.describe();
        BuilderError::build(concat_str("Package build failed: ", text.as_str()))
    }

    /// The error for a search for package files that could not be made.
    pub fn search_failure(reason: &str) -> (r: BuilderError)
        ensures
            r matches BuilderError::Build { message } && message@
                == "Failed to search for package files: "@ + reason@,
    {
        BuilderError::build(concat_str("Failed to search for package files: ", reason))
    }

    /// Accepts the package files that a build left behind and puts them in
    /// ascending order. A build that left none has failed, however its
    /// command ended.
    pub fn check_packages(package_files: Vec<String>) -> (r: Result<Vec<String>, BuilderError>)
        ensures
            r is Ok <==> package_files.len() > 0,
            r matches Ok(files) ==> ascending(files.deep_view()) && files.deep_view().to_multiset()
                == package_files.deep_view().to_multiset(),
            r matches Err(e) ==> e matches BuilderError::Build { message } && message@
                == no_packages_message(),
    {
        if package_files.is_empty() {
            return Err(
                BuilderError::build(
                    String::from_str(
                        "No package files (*.pkg.tar.*) were generated by the build process.\n\nThis usually means:\n• The build was skipped (e.g. due to existing src/ or pkg/ directories)\n• The PKGBUILD has a conditional 'exit 0'\n• The build failed silently (check logs above)\n• Dynamic pkgver/pkgrel caused unexpected naming\n\nPlease review the build output carefully for warnings or skipped steps.",
                    ),
                ),
            );
        }
        Ok(sort_texts(&package_files))
    }

    /// The arguments of `ls` that list `package_files` with details.
    pub fn list_arguments(package_files: &Vec<String>) -> (r: Vec<String>)
        ensures
            r.deep_view() == seq!["-la"@] + package_files.deep_view(),
    {
        let mut args: Vec<String> = Vec::new();
        args.push(String::from_str("-la"));
        assert(args.deep_view() =~= seq!["-la"@]);
        extend_with(&mut args, package_files);
        args
    }
}

/// Dropping `rust` and then `rustup` drops the Rust toolchain names.
pub proof fn lemma_filter_twice(deps: Seq<Seq<char>>)
    ensures
        deps.filter(|d: Seq<char>| d != "rust"@).filter(|d: Seq<char>| d != "rustup"@)
            == deps.filter(|d: Seq<char>| !is_rust_toolchain(d)),
    decreases deps.len(),
{
    reveal(Seq::filter);
    if deps.len() > 0 {
        lemma_filter_twice(deps.drop_last());
        let first = deps.filter(|d: Seq<char>| d != "rust"@);
        let rest = deps.drop_last().filter(|d: Seq<char>| d != "rust"@);
        if deps.last() != "rust"@ {
            assert(first == rest.push(deps.last()));
            assert(first.drop_last() =~= rest);
        }
    }
}

} // verus!
