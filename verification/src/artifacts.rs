//! Artifact collection: which files are looked for, where each one goes,
//! whether it is copied or moved, and how a collection is summed up.

use vstd::prelude::*;
use vstd::string::StringExecFns;
use crate::config::Config;
use crate::error::BuilderError;
use crate::fs::FileSystemUtils;
use crate::paths::{file_name, file_name_of, join, joined};
use crate::text::{concat_str, contains, decimal, ends_with, has_infix, push_decimal, same_text};

verus! {

/// Artifact collector that gathers build outputs.
pub struct ArtifactCollector {
    /// The configuration that the collector works under.
    pub config: Config,
    /// File system queries.
    pub fs_utils: FileSystemUtils,
}

/// Type of operation performed on an artifact.
#[derive(Debug, Clone, Copy, PartialEq, Eq)]
pub enum ArtifactOperation {
    /// File was copied (source preserved).
    Copied,
    /// File was moved (source removed).
    Moved,
}

/// Information about a collected artifact.
#[derive(Debug)]
pub struct CollectedArtifact {
    /// Path of the file where it was found.
    pub source: String,
    /// Destination path.
    pub destination: String,
    /// Whether the file was copied or moved.
    pub operation: ArtifactOperation,
}

/// How the files of one configured pattern are found.
#[derive(Debug)]
pub enum FileSearch {
    /// Every file that matches one of the glob patterns, pattern by pattern.
    Glob { patterns: Vec<String> },
    /// The file of this name, if it exists.
    Exact { name: String },
}

/// Summary of artifact collection results.
#[derive(Debug)]
pub struct CollectionSummary {
    /// Total number of artifacts collected.
    pub total: usize,
    /// Number of package files.
    pub packages: usize,
    /// Number of log files.
    pub logs: usize,
    /// Number of source files (PKGBUILD, .SRCINFO).
    pub sources: usize,
    /// Number of other files.
    pub others: usize,
    /// Number of files copied.
    pub copied: usize,
    /// Number of files moved.
    pub moved: usize,
}

/// What kind of artifact a file name stands for.
pub enum ArtifactKind {
    Package,
    Log,
    Source,
    Other,
}

/// Whether `name` is one of the two source files.
pub open spec fn is_source_name(name: Seq<char>) -> bool {
    name == "PKGBUILD"@ || name == ".SRCINFO"@
}

/// The kind of the artifact named `name`: a package if the name holds
/// `.pkg.tar.`, else a log if it ends in `.log`, else a source file if it is
/// one of the two, else something other.
pub open spec fn kind_of(name: Seq<char>) -> ArtifactKind {
    if has_infix(name, ".pkg.tar."@) {
        ArtifactKind::Package
    } else if ".log"@.is_suffix_of(name) {
        ArtifactKind::Log
    } else if is_source_name(name) {
        ArtifactKind::Source
    } else {
        ArtifactKind::Other
    }
}

/// The counts of a collection.
pub struct Tally {
    pub packages: nat,
    pub logs: nat,
    pub sources: nat,
    pub others: nat,
    pub copied: nat,
    pub moved: nat,
}

impl Tally {
    /// The tally with one more artifact of the given name and operation.
    pub open spec fn plus(self, name: Seq<char>, operation: ArtifactOperation) -> Tally {
        let t = match kind_of(name) {
            ArtifactKind::Package => Tally { packages: self.packages + 1, ..self },
            ArtifactKind::Log => Tally { logs: self.logs + 1, ..self },
            ArtifactKind::Source => Tally { sources: self.sources + 1, ..self },
            ArtifactKind::Other => Tally { others: self.others + 1, ..self },
        };
        match operation {
            ArtifactOperation::Copied => Tally { copied: t.copied + 1, ..t },
            ArtifactOperation::Moved => Tally { moved: t.moved + 1, ..t },
        }
    }
}

/// The counts of `artifacts`. An artifact whose source has no file name is
/// counted nowhere.
pub open spec fn tally(artifacts: Seq<CollectedArtifact>) -> Tally
    decreases artifacts.len(),
{
    if artifacts.len() == 0 {
        Tally { packages: 0, logs: 0, sources: 0, others: 0, copied: 0, moved: 0 }
    } else {
        let rest = tally(artifacts.drop_last());
        match file_name(artifacts.last().source@) {
            Some(name) => rest.plus(name, artifacts.last().operation),
            None => rest,
        }
    }
}

impl CollectionSummary {
    /// Whether the summary holds the counts of `artifacts`.
    pub open spec fn sums_up(&self, artifacts: Seq<CollectedArtifact>) -> bool {
        let t = tally(artifacts);
        &&& self.total == artifacts.len()
        &&& self.packages == t.packages
        &&& self.logs == t.logs
        &&& self.sources == t.sources
        &&& self.others == t.others
        &&& self.copied == t.copied
        &&& self.moved == t.moved
    }

    /// The one-line text of the summary.
    pub open spec fn description(&self) -> Seq<char> {
        "Collected "@ + decimal(self.total as nat) + " artifacts: "@ + decimal(
            self.packages as nat,
        ) + " packages, "@ + decimal(self.logs as nat) + " logs, "@ + decimal(self.sources as nat)
            + " sources, "@ + decimal(self.others as nat) + " others ("@ + decimal(
            self.copied as nat,
        ) + " copied, "@ + decimal(self.moved as nat) + " moved)"@
    }

    /// Renders the one-line text of the summary.
    pub fn describe(&self) -> (r: String)
        ensures
            r@ == self.description(),
    {
        let mut out = String::from_str("Collected ");
        push_decimal(&mut out, self.total as u64);
        out.append(" artifacts: ");
        push_decimal(&mut out, self.packages as u64);
        out.append(" packages, ");
        push_decimal(&mut out, self.logs as u64);
        out.append(" logs, ");
        push_decimal(&mut out, self.sources as u64);
        out.append(" sources, ");
        push_decimal(&mut out, self.others as u64);
        out.append(" others (");
        push_decimal(&mut out, self.copied as u64);
        out.append(" copied, ");
        push_decimal(&mut out, self.moved as u64);
        out.append(" moved)");
        out
    }
}

impl Default for CollectionSummary {
    fn default() -> (r: Self)
        ensures
            r.sums_up(Seq::empty()),
    {
        CollectionSummary {
            total: 0,
            packages: 0,
            logs: 0,
            sources: 0,
            others: 0,
            copied: 0,
            moved: 0,
        }
    }
}

/// The tally never counts more than there are artifacts.
pub proof fn lemma_tally_bounded(artifacts: Seq<CollectedArtifact>)
    ensures
        tally(artifacts).packages + tally(artifacts).logs + tally(artifacts).sources + tally(
            artifacts,
        ).others <= artifacts.len(),
        tally(artifacts).copied + tally(artifacts).moved <= artifacts.len(),
    decreases artifacts.len(),
{
    if artifacts.len() > 0 {
        lemma_tally_bounded(artifacts.drop_last());
    }
}

/// The kind of the artifact named `name`, as [`kind_of`] defines it.
pub fn classify(name: &str) -> (r: ArtifactKind)
    ensures
        r == kind_of(name@),
{
    if contains(name, ".pkg.tar.") {
        ArtifactKind::Package
    } else if ends_with(name, ".log") {
        ArtifactKind::Log
    } else if same_text(name, "PKGBUILD") || same_text(name, ".SRCINFO") {
        ArtifactKind::Source
    } else {
        ArtifactKind::Other
    }
}

/// The searches that the pattern `*.pkg.tar.*` stands for.
pub open spec fn package_globs() -> Seq<Seq<char>> {
    seq!["*.pkg.tar.xz"@, "*.pkg.tar.zst"@, "*.pkg.tar.gz"@]
}

/// How the files of `pattern` are found: the package pattern stands for the
/// three package formats, the two source files are looked up by name, and
/// every other pattern is a glob of its own.
pub open spec fn search_of(pattern: Seq<char>) -> (Option<Seq<char>>, Seq<Seq<char>>) {
    if pattern == "*.pkg.tar.*"@ {
        (None, package_globs())
    } else if is_source_name(pattern) {
        (Some(pattern), Seq::empty())
    } else {
        (None, seq![pattern])
    }
}

impl FileSearch {
    /// The search as a pair: the exact name, if it is one, and the globs.
    pub open spec fn content(&self) -> (Option<Seq<char>>, Seq<Seq<char>>) {
        match self {
            FileSearch::Glob { patterns } => (None, patterns.deep_view()),
            FileSearch::Exact { name } => (Some(name@), Seq::empty()),
        }
    }
}

/// Whether a file under `pattern` is copied rather than moved, given whether
/// sources are preserved: with sources preserved, the two source files are
/// copied, whether the file's name or the pattern names them. Everything
/// else is moved.
pub open spec fn copies(preserve_sources: bool, file_path: Seq<char>, pattern: Seq<char>) -> bool {
    preserve_sources && ((file_name(file_path) matches Some(name) && is_source_name(name))
        || is_source_name(pattern))
}

/// Whether the files collected for `pattern` show that packages were found.
pub open spec fn shows_packages(pattern: Seq<char>, count: nat) -> bool {
    has_infix(pattern, ".pkg.tar."@) && count > 0
}

/// Whether the files found for some pattern show that packages were found.
pub open spec fn any_packages(found: Seq<(String, Vec<CollectedArtifact>)>) -> bool {
    exists|i: int|
        0 <= i < found.len() && shows_packages((#[trigger] found[i]).0@, found[i].1.len() as nat)
}

/// The artifacts of all patterns, pattern by pattern.
pub open spec fn all_artifacts(found: Seq<(String, Vec<CollectedArtifact>)>) -> Seq<
    CollectedArtifact,
>
    decreases found.len(),
{
    if found.len() == 0 {
        Seq::empty()
    } else {
        all_artifacts(found.drop_last()) + found.last().1@
    }
}

/// Whether `e` reports that no package file was found for collection into
/// `output_dir`.
pub open spec fn is_nothing_collected(e: BuilderError, output_dir: Seq<char>) -> bool {
    &&& e matches BuilderError::Artifact { message, path }
    &&& message@ == "No package files (*.pkg.tar.*) were found to collect"@
    &&& path@ == output_dir
}

/// Appends copies of the artifacts of `src` to `dst`.
fn extend_artifacts(dst: &mut Vec<CollectedArtifact>, src: &Vec<CollectedArtifact>)
    ensures
        final(dst)@ == old(dst)@ + src@,
{
    let mut i: usize = 0;
    while i < src.len()
        invariant
            i <= src.len(),
            dst@ == old(dst)@ + src@.take(i as int),
        decreases src.len() - i,
    {
        let a = &src[i];
        let copy = CollectedArtifact {
            source: a.source.clone(),
            destination: a.destination.clone(),
            operation: a.operation,
        };
        assert(copy == *a);
        dst.push(copy);
        i += 1;
        assert(src@.take(i as int) =~= src@.take(i - 1).push(src@[i - 1]));
        assert(dst@ =~= old(dst)@ + src@.take(i as int));
    }
    assert(src@.take(src.len() as int) =~= src@);
}

impl ArtifactCollector {
    /// A new artifact collector.
    pub fn new(config: Config) -> (r: Self)
        ensures
            r.config == config,
    {
        ArtifactCollector { fs_utils: FileSystemUtils::new(), config }
    }

    /// Decides how the files of `pattern` are found.
    pub fn search_for(pattern: &str) -> (r: FileSearch)
        ensures
            r.content() == search_of(pattern@),
    {
        if same_text(pattern, "*.pkg.tar.*") {
            let mut patterns: Vec<String> = Vec::new();
            patterns.push(String::from_str("*.pkg.tar.xz"));
            patterns.push(String::from_str("*.pkg.tar.zst"));
            patterns.push(String::from_str("*.pkg.tar.gz"));
            assert(patterns.deep_view() =~= package_globs());
            FileSearch::Glob { patterns }
        } else if same_text(pattern, "PKGBUILD") || same_text(pattern, ".SRCINFO") {
            FileSearch::Exact { name: String::from_str(pattern) }
        } else {
            let mut patterns: Vec<String> = Vec::new();
            patterns.push(String::from_str(pattern));
            assert(patterns.deep_view() =~= seq![pattern@]);
            FileSearch::Glob { patterns }
        }
    }

    /// Determines if a file should be copied (vs moved).
    pub fn should_copy_file(&self, file_path: &str, pattern: &str) -> (r: bool)
        ensures
            r == copies(self.config.artifacts.preserve_sources, file_path@, pattern@),
    {
        if self.config.artifacts.preserve_sources {
            match file_name_of(file_path) {
                Some(name) => {
                    if same_text(name.as_str(), "PKGBUILD") || same_text(name.as_str(), ".SRCINFO") {
                        return true;
                    }
                },
                None => {},
            }
        }
        if same_text(pattern, "PKGBUILD") || same_text(pattern, ".SRCINFO") {
            return self.config.artifacts.preserve_sources;
        }
        false
    }

    /// Decides what happens to the file at `file_path`, found under
    /// `pattern`: it goes into the output directory under its own name, and
    /// is copied or moved as [`copies`] says. A path without a file name is
    /// an error.
    pub fn plan_file(&self, file_path: &str, pattern: &str) -> (r: Result<
        CollectedArtifact,
        BuilderError,
    >)
        ensures
            r is Ok <==> file_name(file_path@) is Some,
            r matches Ok(a) ==> {
                &&& a.source@ == file_path@
                &&& a.destination@ == joined(
                    self.config.artifacts.output_dir@,
                    file_name(file_path@)->0,
                )
                &&& (a.operation == ArtifactOperation::Copied) == copies(
                    self.config.artifacts.preserve_sources,
                    file_path@,
                    pattern@,
                )
            },
            r matches Err(e) ==> {
                &&& e matches BuilderError::Artifact { message, path }
                &&& message@ == "Invalid file name"@
                &&& path@ == file_path@
            },
    {
        let name = match file_name_of(file_path) {
            Some(name) => name,
            None => {
                return Err(
                    BuilderError::artifact(
                        String::from_str("Invalid file name"),
                        String::from_str(file_path),
                    ),
                );
            },
        };
        let destination = join(self.config.artifacts.output_dir.as_str(), name.as_str());
        let operation = if self.should_copy_file(file_path, pattern) {
            ArtifactOperation::Copied
        } else {
            ArtifactOperation::Moved
        };
        Ok(CollectedArtifact { source: String::from_str(file_path), destination, operation })
    }

    /// The error for a file that could not be copied or moved; `reason` is
    /// what the file system said.
    pub fn transfer_failure(
        operation: ArtifactOperation,
        file_name: &str,
        reason: &str,
        file_path: &str,
    ) -> (r: BuilderError)
        ensures
            r matches BuilderError::Artifact { message, path } && path@ == file_path@ && message@
                == (match operation {
                ArtifactOperation::Copied => "Failed to copy "@,
                ArtifactOperation::Moved => "Failed to move "@,
            }) + file_name@ + ": "@ + reason@,
    {
        let mut message = match operation {
            ArtifactOperation::Copied => String::from_str("Failed to copy "),
            ArtifactOperation::Moved => String::from_str("Failed to move "),
        };
        message.append(file_name);
        message.append(": ");
        message.append(reason);
        BuilderError::artifact(message, String::from_str(file_path))
    }

    /// The error for an output directory that could not be created; `reason`
    /// is what the file system said.
    pub fn directory_failure(&self, reason: &str) -> (r: BuilderError)
        ensures
            r matches BuilderError::Artifact { message, path } && path@
                == self.config.artifacts.output_dir@ && message@
                == "Failed to create artifacts directory: "@ + reason@,
    {
        BuilderError::artifact(
            concat_str("Failed to create artifacts directory: ", reason),
            self.config.artifacts.output_dir.clone(),
        )
    }

    /// Whether `count` files collected for `pattern` show that packages were
    /// found.
    pub fn found_packages(pattern: &str, count: usize) -> (r: bool)
        ensures
            r == shows_packages(pattern@, count as nat),
    {
        contains(pattern, ".pkg.tar.") && count > 0
    }

    /// Closes a collection: it stands if packages were found, and is an
    /// error otherwise.
    pub fn finish(&self, collected: Vec<CollectedArtifact>, found_packages: bool) -> (r: Result<
        Vec<CollectedArtifact>,
        BuilderError,
    >)
        ensures
            r is Ok <==> found_packages,
            r matches Ok(all) ==> all == collected,
            r matches Err(e) ==> is_nothing_collected(e, self.config.artifacts.output_dir@),
    {
        if !found_packages {
            return Err(
                BuilderError::artifact(
                    String::from_str("No package files (*.pkg.tar.*) were found to collect"),
                    self.config.artifacts.output_dir.clone(),
                ),
            );
        }
        Ok(collected)
    }

    /// What a collection comes to, given each configured pattern with the
    /// artifacts collected for it, in order. The collection stands if the
    /// files of some pattern show that packages were found, and then holds
    /// the artifacts of all patterns, pattern by pattern. Otherwise it is an
    /// error.
    pub fn collect_result(&self, found: Vec<(String, Vec<CollectedArtifact>)>) -> (r: Result<
        Vec<CollectedArtifact>,
        BuilderError,
    >)
        ensures
            r is Ok <==> any_packages(found@),
            r matches Ok(all) ==> all@ == all_artifacts(found@),
            r matches Err(e) ==> is_nothing_collected(e, self.config.artifacts.output_dir@),
    {
        let mut collected: Vec<CollectedArtifact> = Vec::new();
        let mut found_packages = false;
        let mut i: usize = 0;
        assert(found@.take(0) =~= Seq::<(String, Vec<CollectedArtifact>)>::empty());
        while i < found.len()
            invariant
                i <= found.len(),
                collected@ == all_artifacts(found@.take(i as int)),
                found_packages == any_packages(found@.take(i as int)),
            decreases found.len() - i,
        {
            let ghost before = found@.take(i as int);
            let ghost next = found@.take(i + 1);
            proof {
                assert(next.drop_last() =~= before);
                assert(next.last() == found@[i as int]);
            }
            let shown = ArtifactCollector::found_packages(found[i].0.as_str(), found[i].1.len());
            proof {
                if any_packages(before) {
                    let k = choose|k: int|
                        0 <= k < before.len() && shows_packages(
                            (#[trigger] before[k]).0@,
                            before[k].1.len() as nat,
                        );
                    assert(next[k] == before[k]);
                }
                if shown {
                    assert(shows_packages(next[i as int].0@, next[i as int].1.len() as nat));
                }
                if any_packages(next) {
                    let k = choose|k: int|
                        0 <= k < next.len() && shows_packages(
                            (#[trigger] next[k]).0@,
                            next[k].1.len() as nat,
                        );
                    if k < i {
                        assert(before[k] == next[k]);
                    }
                }
            }
            if shown {
                found_packages = true;
            }
            extend_artifacts(&mut collected, &found[i].1);
            i += 1;
        }
        assert(found@.take(found.len() as int) =~= found@);
        self.finish(collected, found_packages)
    }

    /// The summary of collected artifacts by type.
    pub fn get_collection_summary(&self, artifacts: &Vec<CollectedArtifact>) -> (r:
        CollectionSummary)
        ensures
            r.sums_up(artifacts@),
    {
        let mut summary = CollectionSummary::default();
        let mut i: usize = 0;
        assert(artifacts@.take(0) =~= Seq::<CollectedArtifact>::empty());
        while i < artifacts.len()
            invariant
                i <= artifacts.len(),
                (CollectionSummary { total: i, ..summary }).sums_up(artifacts@.take(i as int)),
            decreases artifacts.len() - i,
        {
            let artifact = &artifacts[i];
            proof {
                let next = artifacts@.take(i + 1);
                assert(next.drop_last() =~= artifacts@.take(i as int));
                assert(next.last() == artifacts@[i as int]);
                lemma_tally_bounded(artifacts@.take(i as int));
            }
            match file_name_of(artifact.source.as_str()) {
                Some(name) => {
                    match classify(name.as_str()) {
                        ArtifactKind::Package => { summary.packages += 1; },
                        ArtifactKind::Log => { summary.logs += 1; },
                        ArtifactKind::Source => { summary.sources += 1; },
                        ArtifactKind::Other => { summary.others += 1; },
                    }
                    match artifact.operation {
                        ArtifactOperation::Copied => { summary.copied += 1; },
                        ArtifactOperation::Moved => { summary.moved += 1; },
                    }
                },
                None => {},
            }
            i += 1;
        }
        assert(artifacts@.take(artifacts.len() as int) =~= artifacts@);
        summary.total = artifacts.len();
        summary
    }
}

} // verus!
