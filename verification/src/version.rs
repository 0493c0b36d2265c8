//! Version information: what is written to the version file of a build, and
//! how such a file is read back.

use vstd::prelude::*;
use vstd::string::StringExecFns;
use crate::error::BuilderError;
use crate::fs::FileSystemUtils;
use crate::pkgbuild::{InfoView, PkgbuildInfo};
use crate::text::{
    chars_of,
    first_len,
    is_space,
    join_with,
    joined_with,
    leading,
    lemma_first_len_is,
    lemma_leading_is,
    lemma_parts_first,
    lemma_trailing_is,
    lemma_trimmed_nothing,
    parts,
    same_text,
    split_on,
    string_from,
    trailing,
    trim,
    trim_class,
    trimmed,
    trimmed_of,
    CharClass,
};

verus! {

/// Version information generator for CI integration.
#[derive(Debug)]
pub struct VersionGenerator {
    /// File system queries.
    pub fs_utils: FileSystemUtils,
}

/// Complete version information structure.
#[derive(Debug, Clone)]
pub struct VersionInfo {
    /// Package version.
    pub version: String,
    /// Package release number.
    pub pkg_release: String,
    /// Full version string (version-release).
    pub full_version: String,
    /// Package name.
    pub package_name: String,
    /// Git tag version (the commit tag, or the version without one).
    pub tag_version: String,
    /// Build job id (`local` outside CI).
    pub build_job_id: String,
    /// Build timestamp in RFC 3339 format.
    pub build_date: String,
    /// Supported architectures, separated by spaces.
    pub arch: String,
}

/// The mathematical content of a [`VersionInfo`].
pub struct VersionView {
    pub version: Seq<char>,
    pub pkg_release: Seq<char>,
    pub full_version: Seq<char>,
    pub package_name: Seq<char>,
    pub tag_version: Seq<char>,
    pub build_job_id: Seq<char>,
    pub build_date: Seq<char>,
    pub arch: Seq<char>,
}

impl View for VersionInfo {
    type V = VersionView;

    open spec fn view(&self) -> VersionView {
        VersionView {
            version: self.version@,
            pkg_release: self.pkg_release@,
            full_version: self.full_version@,
            package_name: self.package_name@,
            tag_version: self.tag_version@,
            build_job_id: self.build_job_id@,
            build_date: self.build_date@,
            arch: self.arch@,
        }
    }
}

/// An assignment of an environment file: key and value.
pub type Assignment = (Seq<char>, Seq<char>);

/// The assignment of `value` to `key` as a line of an environment file.
pub open spec fn env_line(key: Seq<char>, value: Seq<char>) -> Seq<char> {
    key + seq!['='] + value
}

/// `value` between double quotes.
pub open spec fn quoted(value: Seq<char>) -> Seq<char> {
    seq!['"'] + value + seq!['"']
}

/// The text made of `lines`, each closed by a line feed.
pub open spec fn file_of(lines: Seq<Seq<char>>) -> Seq<char>
    decreases lines.len(),
{
    if lines.len() == 0 {
        Seq::empty()
    } else {
        file_of(lines.drop_last()) + lines.last() + seq!['\n']
    }
}

/// Whether `value` survives being written to an environment file and read
/// back: it holds no line feed, and neither starts nor ends with whitespace
/// or a double quote.
pub open spec fn is_plain(value: Seq<char>) -> bool {
    &&& forall|j: int| 0 <= j < value.len() ==> #[trigger] value[j] != '\n'
    &&& value.len() > 0 ==> {
        &&& !is_space(value[0]) && !is_space(value.last())
        &&& value[0] != '"' && value.last() != '"'
    }
}

/// Whether `c` can stand in a key: a capital letter or an underscore.
pub open spec fn is_key_char(c: char) -> bool {
    ('A' <= c <= 'Z') || c == '_'
}

/// Whether `key` can stand in front of `=`: it is not empty and made of key
/// characters.
pub open spec fn is_env_key(key: Seq<char>) -> bool {
    &&& key.len() > 0
    &&& forall|j: int| 0 <= j < key.len() ==> is_key_char(#[trigger] key[j])
}

/// `value`, or `default` where there is none.
pub open spec fn or_default(value: Option<Seq<char>>, default: Seq<char>) -> Seq<char> {
    match value {
        Some(v) => v,
        None => default,
    }
}

/// The assignment that one line of an environment file stands for. Blank
/// lines, comment lines and lines without `=` stand for none. The key is what
/// is in front of the first `=`, the value what follows it, both without
/// surrounding whitespace, the value without surrounding double quotes too.
pub open spec fn line_assignment(line: Seq<char>) -> Option<Assignment> {
    let text = trimmed(line);
    let n = first_len(text, '=') as int;
    if text.len() == 0 || text[0] == '#' || n >= text.len() {
        None
    } else {
        Some(
            (
                trimmed(text.take(n)),
                trimmed_of(trimmed(text.skip(n + 1)), CharClass::DoubleQuote),
            ),
        )
    }
}

/// The assignments that `lines` stand for, in order.
pub open spec fn assignments_of(lines: Seq<Seq<char>>) -> Seq<Assignment>
    decreases lines.len(),
{
    if lines.len() == 0 {
        Seq::empty()
    } else {
        let rest = assignments_of(lines.drop_last());
        match line_assignment(lines.last()) {
            Some(a) => rest.push(a),
            None => rest,
        }
    }
}

/// The assignments of an environment file, line by line.
pub open spec fn assignments(content: Seq<char>) -> Seq<Assignment> {
    assignments_of(parts(content, '\n'))
}

/// The value of the last assignment to `key`, if there is one.
pub open spec fn last_value(entries: Seq<Assignment>, key: Seq<char>) -> Option<Seq<char>>
    decreases entries.len(),
{
    if entries.len() == 0 {
        None
    } else if entries.last().0 == key {
        Some(entries.last().1)
    } else {
        last_value(entries.drop_last(), key)
    }
}

impl VersionView {
    /// The version information of a package: the commit tag falls back on
    /// the version, the job id on `local`.
    pub open spec fn of_package(
        info: InfoView,
        commit_tag: Option<Seq<char>>,
        job_id: Option<Seq<char>>,
        build_date: Seq<char>,
    ) -> VersionView {
        VersionView {
            version: info.version,
            pkg_release: info.release,
            full_version: info.full_version(),
            package_name: info.name,
            tag_version: or_default(commit_tag, info.version),
            build_job_id: or_default(job_id, "local"@),
            build_date,
            arch: joined_with(info.arch, seq![' ']),
        }
    }

    /// The version information that an environment file holds. A key that
    /// the file does not assign has its default; the default of the build
    /// date is `now`.
    pub open spec fn of_env(content: Seq<char>, now: Seq<char>) -> VersionView {
        let entries = assignments(content);
        VersionView {
            version: or_default(last_value(entries, "VERSION"@), "unknown"@),
            pkg_release: or_default(last_value(entries, "PKG_RELEASE"@), "1"@),
            full_version: or_default(last_value(entries, "FULL_VERSION"@), "unknown-1"@),
            package_name: or_default(last_value(entries, "PACKAGE_NAME"@), "unknown"@),
            tag_version: or_default(last_value(entries, "TAG_VERSION"@), "unknown"@),
            build_job_id: or_default(last_value(entries, "BUILD_JOB_ID"@), "unknown"@),
            build_date: or_default(last_value(entries, "BUILD_DATE"@), now),
            arch: or_default(last_value(entries, "ARCH"@), "any"@),
        }
    }

    /// The version information that an environment file holds when it is
    /// read at `time`. The time matters only to a file without a build date:
    /// such a file is dated with it, and cannot be read where there is none.
    pub open spec fn of_env_at(content: Seq<char>, time: Option<Seq<char>>) -> Option<VersionView> {
        match (last_value(assignments(content), "BUILD_DATE"@), time) {
            (Some(date), _) => Some(VersionView::of_env(content, date)),
            (None, Some(now)) => Some(VersionView::of_env(content, now)),
            (None, None) => None,
        }
    }

    /// The lines of the environment file for this version information: one
    /// assignment for each field, the architectures between double quotes.
    pub open spec fn env_lines(self) -> Seq<Seq<char>> {
        seq![
            env_line("VERSION"@, self.version),
            env_line("PKG_RELEASE"@, self.pkg_release),
            env_line("FULL_VERSION"@, self.full_version),
            env_line("PACKAGE_NAME"@, self.package_name),
            env_line("TAG_VERSION"@, self.tag_version),
            env_line("BUILD_JOB_ID"@, self.build_job_id),
            env_line("BUILD_DATE"@, self.build_date),
            env_line("ARCH"@, quoted(self.arch)),
        ]
    }

    /// The text of the environment file for this version information: its
    /// lines, each closed by a line feed.
    pub open spec fn env_file(self) -> Seq<char> {
        file_of(self.env_lines())
    }

    /// The assignments that the environment file makes.
    pub open spec fn env_entries(self) -> Seq<Assignment> {
        seq![
            ("VERSION"@, self.version),
            ("PKG_RELEASE"@, self.pkg_release),
            ("FULL_VERSION"@, self.full_version),
            ("PACKAGE_NAME"@, self.package_name),
            ("TAG_VERSION"@, self.tag_version),
            ("BUILD_JOB_ID"@, self.build_job_id),
            ("BUILD_DATE"@, self.build_date),
            ("ARCH"@, self.arch),
        ]
    }

    /// Whether every field can be written to an environment file and read
    /// back unchanged.
    pub open spec fn is_plain(self) -> bool {
        &&& is_plain(self.version)
        &&& is_plain(self.pkg_release)
        &&& is_plain(self.full_version)
        &&& is_plain(self.package_name)
        &&& is_plain(self.tag_version)
        &&& is_plain(self.build_job_id)
        &&& is_plain(self.build_date)
        &&& is_plain(self.arch)
    }
}

/// The RFC 3339 text, in UTC, of the moment that lies `seconds` seconds and
/// `nanos` nanoseconds after the start of 1970; `None` for a moment that
/// `chrono` cannot represent.
pub uninterp spec fn rfc3339_text(seconds: i64, nanos: u32) -> Option<Seq<char>>;

/// `DateTime::from_timestamp` of `chrono`, with the moment it returns
/// written out by `DateTime::to_rfc3339`: the result is the RFC 3339 text of
/// the moment, and `None` where `from_timestamp` returns `None`.
#[verifier::external_body]
pub(crate) fn rfc3339_of(seconds: i64, nanos: u32) -> (r: Option<String>)
    ensures
        r.deep_view() == rfc3339_text(seconds, nanos),
{
    chrono::DateTime::from_timestamp(seconds, nanos).map(|moment| moment.to_rfc3339())
}

/// Whether `e` reports a build time that cannot be written as a date.
pub open spec fn is_bad_time(e: BuilderError) -> bool {
    e matches BuilderError::Validation { message } && message@ == "Build time is out of range"@
}

/// The error for a build time that cannot be written as a date.
fn bad_time() -> (r: BuilderError)
    ensures
        is_bad_time(r),
{
    BuilderError::validation(String::from_str("Build time is out of range"))
}

/// Appends the line that assigns `value` to `key` to a file that holds
/// `lines` so far.
fn push_line(out: &mut String, Ghost(lines): Ghost<Seq<Seq<char>>>, key: &str, value: &str)
    requires
        old(out)@ == file_of(lines),
    ensures
        final(out)@ == file_of(lines.push(env_line(key@, value@))),
{
    out.append(key);
    out.push('=');
    out.append(value);
    out.push('\n');
    proof {
        let more = lines.push(env_line(key@, value@));
        assert(more.drop_last() =~= lines);
        assert(out@ =~= file_of(lines) + env_line(key@, value@) + seq!['\n']);
    }
}

/// The assignment that one line of an environment file stands for.
pub fn read_assignment(line: &str) -> (r: Option<(String, String)>)
    ensures
        r.deep_view() == line_assignment(line@),
{
    let text = trim(line);
    let v = chars_of(text.as_str());
    if v.len() == 0 || v[0] == '#' {
        return None;
    }
    let mut n: usize = 0;
    while n < v.len() && v[n] != '='
        invariant
            n <= v.len(),
            forall|j: int| 0 <= j < n ==> #[trigger] v@[j] != '=',
        decreases v.len() - n,
    {
        n += 1;
    }
    proof {
        lemma_first_len_is(v@, '=', n as int);
    }
    if n == v.len() {
        return None;
    }
    let raw_key = string_from(&v, 0, n);
    let raw_value = string_from(&v, n + 1, v.len());
    assert(v@.subrange(0, n as int) =~= v@.take(n as int));
    assert(v@.subrange(n + 1, v.len() as int) =~= v@.skip(n + 1));
    let key = trim(raw_key.as_str());
    let inner = trim(raw_value.as_str());
    let value = trim_class(inner.as_str(), CharClass::DoubleQuote);
    Some((key, value))
}

/// The assignments of an environment file, line by line.
pub fn read_assignments(content: &str) -> (r: Vec<(String, String)>)
    ensures
        r.deep_view() == assignments(content@),
{
    let lines = split_on(content, '\n');
    let mut out: Vec<(String, String)> = Vec::new();
    let mut i: usize = 0;
    assert(lines.deep_view().take(0) =~= Seq::<Seq<char>>::empty());
    assert(out.deep_view() =~= Seq::<Assignment>::empty());
    while i < lines.len()
        invariant
            i <= lines.len(),
            out.deep_view() == assignments_of(lines.deep_view().take(i as int)),
        decreases lines.len() - i,
    {
        let ghost before = out.deep_view();
        proof {
            let next = lines.deep_view().take(i + 1);
            assert(next.drop_last() =~= lines.deep_view().take(i as int));
            assert(next.last() == lines@[i as int]@);
        }
        match read_assignment(lines[i].as_str()) {
            Some(a) => {
                let ghost pair = (a.0@, a.1@);
                out.push(a);
                assert(out.deep_view() =~= before.push(pair));
            },
            None => {},
        }
        i += 1;
    }
    assert(lines.deep_view().take(lines.len() as int) =~= lines.deep_view());
    out
}

/// The value of the last assignment to `key`, if there is one.
pub fn lookup(entries: &Vec<(String, String)>, key: &str) -> (r: Option<String>)
    ensures
        r.deep_view() == last_value(entries.deep_view(), key@),
{
    let mut i: usize = entries.len();
    assert(entries.deep_view().take(i as int) =~= entries.deep_view());
    while i > 0
        invariant
            i <= entries.len(),
            last_value(entries.deep_view(), key@) == last_value(
                entries.deep_view().take(i as int),
                key@,
            ),
        decreases i,
    {
        proof {
            let head = entries.deep_view().take(i as int);
            assert(head.last() == entries@[i - 1].deep_view());
            assert(head.drop_last() =~= entries.deep_view().take(i - 1));
        }
        if same_text(entries[i - 1].0.as_str(), key) {
            return Some(entries[i - 1].1.clone());
        }
        i -= 1;
    }
    None
}

/// The value of the last assignment to `key`, or `default` without one.
fn value_or(entries: &Vec<(String, String)>, key: &str, default: &str) -> (r: String)
    ensures
        r@ == or_default(last_value(entries.deep_view(), key@), default@),
{
    match lookup(entries, key) {
        Some(v) => v,
        None => String::from_str(default),
    }
}

impl VersionInfo {
    /// The version information of `pkgbuild`, built at `build_date`, for the
    /// commit tag and the job id that CI gave, if it gave any.
    pub fn of_package(
        pkgbuild: &PkgbuildInfo,
        commit_tag: Option<String>,
        job_id: Option<String>,
        build_date: String,
    ) -> (r: Self)
        ensures
            r@ == VersionView::of_package(
                pkgbuild@,
                commit_tag.deep_view(),
                job_id.deep_view(),
                build_date@,
            ),
    {
        let tag_version = match commit_tag {
            Some(tag) => tag,
            None => pkgbuild.version.clone(),
        };
        let build_job_id = match job_id {
            Some(id) => id,
            None => String::from_str("local"),
        };
        proof {
            reveal_strlit(" ");
            assert(" "@ =~= seq![' ']);
        }
        VersionInfo {
            version: pkgbuild.version.clone(),
            pkg_release: pkgbuild.release.clone(),
            full_version: pkgbuild.full_version(),
            package_name: pkgbuild.name.clone(),
            tag_version,
            build_job_id,
            build_date,
            arch: join_with(&pkgbuild.arch, " "),
        }
    }

    /// The version information that the environment file `content` holds,
    /// with `now` as the build date where the file gives none.
    pub fn of_env(content: &str, now: &str) -> (r: Self)
        ensures
            r@ == VersionView::of_env(content@, now@),
    {
        let entries = read_assignments(content);
        VersionInfo {
            version: value_or(&entries, "VERSION", "unknown"),
            pkg_release: value_or(&entries, "PKG_RELEASE", "1"),
            full_version: value_or(&entries, "FULL_VERSION", "unknown-1"),
            package_name: value_or(&entries, "PACKAGE_NAME", "unknown"),
            tag_version: value_or(&entries, "TAG_VERSION", "unknown"),
            build_job_id: value_or(&entries, "BUILD_JOB_ID", "unknown"),
            build_date: value_or(&entries, "BUILD_DATE", now),
            arch: value_or(&entries, "ARCH", "any"),
        }
    }
}

impl VersionGenerator {
    /// A new version generator.
    pub fn new() -> (r: Self) {
        VersionGenerator { fs_utils: FileSystemUtils::new() }
    }

    /// Creates the version information of `pkgbuild` for the commit tag and
    /// the job id that CI gave, if it gave any. The build date is the time
    /// of the build, given as seconds and nanoseconds since the start of
    /// 1970 and written as an RFC 3339 text. A time that cannot be written
    /// so is an error.
    pub fn create_version_info(
        &self,
        pkgbuild: &PkgbuildInfo,
        commit_tag: Option<String>,
        job_id: Option<String>,
        seconds: i64,
        nanos: u32,
    ) -> (r: Result<VersionInfo, BuilderError>)
        ensures
            match rfc3339_text(seconds, nanos) {
                Some(build_date) => r matches Ok(info) && info@ == VersionView::of_package(
                    pkgbuild@,
                    commit_tag.deep_view(),
                    job_id.deep_view(),
                    build_date,
                ),
                None => r matches Err(e) && is_bad_time(e),
            },
    {
        match rfc3339_of(seconds, nanos) {
            Some(build_date) => Ok(
                VersionInfo::of_package(pkgbuild, commit_tag, job_id, build_date),
            ),
            None => Err(bad_time()),
        }
    }

    /// Formats version information as an environment file.
    pub fn format_as_env_file(&self, info: &VersionInfo) -> (r: Result<String, BuilderError>)
        ensures
            r matches Ok(text) && text@ == info@.env_file(),
    {
        let mut out = String::new();
        let ghost mut lines = Seq::<Seq<char>>::empty();
        push_line(&mut out, Ghost(lines), "VERSION", info.version.as_str());
        proof {
            lines = lines.push(env_line("VERSION"@, info.version@));
        }
        push_line(&mut out, Ghost(lines), "PKG_RELEASE", info.pkg_release.as_str());
        proof {
            lines = lines.push(env_line("PKG_RELEASE"@, info.pkg_release@));
        }
        push_line(&mut out, Ghost(lines), "FULL_VERSION", info.full_version.as_str());
        proof {
            lines = lines.push(env_line("FULL_VERSION"@, info.full_version@));
        }
        push_line(&mut out, Ghost(lines), "PACKAGE_NAME", info.package_name.as_str());
        proof {
            lines = lines.push(env_line("PACKAGE_NAME"@, info.package_name@));
        }
        push_line(&mut out, Ghost(lines), "TAG_VERSION", info.tag_version.as_str());
        proof {
            lines = lines.push(env_line("TAG_VERSION"@, info.tag_version@));
        }
        push_line(&mut out, Ghost(lines), "BUILD_JOB_ID", info.build_job_id.as_str());
        proof {
            lines = lines.push(env_line("BUILD_JOB_ID"@, info.build_job_id@));
        }
        push_line(&mut out, Ghost(lines), "BUILD_DATE", info.build_date.as_str());
        proof {
            lines = lines.push(env_line("BUILD_DATE"@, info.build_date@));
        }
        let mut arch = String::new();
        arch.push('"');
        arch.append(info.arch.as_str());
        arch.push('"');
        assert(arch@ =~= quoted(info.arch@));
        push_line(&mut out, Ghost(lines), "ARCH", arch.as_str());
        proof {
            lines = lines.push(env_line("ARCH"@, quoted(info.arch@)));
            assert(lines =~= info@.env_lines());
        }
        Ok(out)
    }

    /// Reads version information back from the text of an environment file.
    /// A file without a build date is dated with the time of reading, given
    /// as seconds and nanoseconds since the start of 1970; it is an error if
    /// that time cannot be written as a date.
    pub fn parse_env_content(&self, content: &str, seconds: i64, nanos: u32) -> (r: Result<
        VersionInfo,
        BuilderError,
    >)
        ensures
            match VersionView::of_env_at(content@, rfc3339_text(seconds, nanos)) {
                Some(v) => r matches Ok(info) && info@ == v,
                None => r matches Err(e) && is_bad_time(e),
            },
    {
        let entries = read_assignments(content);
        match lookup(&entries, "BUILD_DATE") {
            Some(date) => Ok(VersionInfo::of_env(content, date.as_str())),
            None => match rfc3339_of(seconds, nanos) {
                Some(now) => Ok(VersionInfo::of_env(content, now.as_str())),
                None => Err(bad_time()),
            },
        }
    }
}

impl Default for VersionGenerator {
    fn default() -> (r: Self) {
        VersionGenerator::new()
    }
}

/// A key made of key characters holds nothing that a line is cut at.
pub proof fn lemma_key_chars(key: Seq<char>)
    requires
        is_env_key(key),
    ensures
        key[0] != '#',
        !is_space(key[0]),
        !is_space(key.last()),
        forall|j: int| 0 <= j < key.len() ==> #[trigger] key[j] != '=' && key[j] != '\n',
{
    assert(is_key_char(key[0]));
    assert(is_key_char(key[key.len() - 1]));
    assert forall|j: int| 0 <= j < key.len() implies #[trigger] key[j] != '=' && key[j] != '\n' by {
        assert(is_key_char(key[j]));
    }
}

/// The eight keys of the version file are keys.
pub proof fn lemma_version_keys()
    ensures
        is_env_key("VERSION"@),
        is_env_key("PKG_RELEASE"@),
        is_env_key("FULL_VERSION"@),
        is_env_key("PACKAGE_NAME"@),
        is_env_key("TAG_VERSION"@),
        is_env_key("BUILD_JOB_ID"@),
        is_env_key("BUILD_DATE"@),
        is_env_key("ARCH"@),
{
    assert(is_env_key("VERSION"@)) by {
        reveal_strlit("VERSION");
        let key = "VERSION"@;
        assert(key.len() == 7);
        assert forall|j: int| 0 <= j < key.len() implies is_key_char(#[trigger] key[j]) by {
            if j == 0 {
            } else if j == 1 {
            } else if j == 2 {
            } else if j == 3 {
            } else if j == 4 {
            } else if j == 5 {
            } else if j == 6 {
            }
        }
    }
    assert(is_env_key("PKG_RELEASE"@)) by {
        reveal_strlit("PKG_RELEASE");
        let key = "PKG_RELEASE"@;
        assert(key.len() == 11);
        assert forall|j: int| 0 <= j < key.len() implies is_key_char(#[trigger] key[j]) by {
            if j == 0 {
            } else if j == 1 {
            } else if j == 2 {
            } else if j == 3 {
            } else if j == 4 {
            } else if j == 5 {
            } else if j == 6 {
            } else if j == 7 {
            } else if j == 8 {
            } else if j == 9 {
            } else if j == 10 {
            }
        }
    }
    assert(is_env_key("FULL_VERSION"@)) by {
        reveal_strlit("FULL_VERSION");
        let key = "FULL_VERSION"@;
        assert(key.len() == 12);
        assert forall|j: int| 0 <= j < key.len() implies is_key_char(#[trigger] key[j]) by {
            if j == 0 {
            } else if j == 1 {
            } else if j == 2 {
            } else if j == 3 {
            } else if j == 4 {
            } else if j == 5 {
            } else if j == 6 {
            } else if j == 7 {
            } else if j == 8 {
            } else if j == 9 {
            } else if j == 10 {
            } else if j == 11 {
            }
        }
    }
    assert(is_env_key("PACKAGE_NAME"@)) by {
        reveal_strlit("PACKAGE_NAME");
        let key = "PACKAGE_NAME"@;
        assert(key.len() == 12);
        assert forall|j: int| 0 <= j < key.len() implies is_key_char(#[trigger] key[j]) by {
            if j == 0 {
            } else if j == 1 {
            } else if j == 2 {
            } else if j == 3 {
            } else if j == 4 {
            } else if j == 5 {
            } else if j == 6 {
            } else if j == 7 {
            } else if j == 8 {
            } else if j == 9 {
            } else if j == 10 {
            } else if j == 11 {
            }
        }
    }
    assert(is_env_key("TAG_VERSION"@)) by {
        reveal_strlit("TAG_VERSION");
        let key = "TAG_VERSION"@;
        assert(key.len() == 11);
        assert forall|j: int| 0 <= j < key.len() implies is_key_char(#[trigger] key[j]) by {
            if j == 0 {
            } else if j == 1 {
            } else if j == 2 {
            } else if j == 3 {
            } else if j == 4 {
            } else if j == 5 {
            } else if j == 6 {
            } else if j == 7 {
            } else if j == 8 {
            } else if j == 9 {
            } else if j == 10 {
            }
        }
    }
    assert(is_env_key("BUILD_JOB_ID"@)) by {
        reveal_strlit("BUILD_JOB_ID");
        let key = "BUILD_JOB_ID"@;
        assert(key.len() == 12);
        assert forall|j: int| 0 <= j < key.len() implies is_key_char(#[trigger] key[j]) by {
            if j == 0 {
            } else if j == 1 {
            } else if j == 2 {
            } else if j == 3 {
            } else if j == 4 {
            } else if j == 5 {
            } else if j == 6 {
            } else if j == 7 {
            } else if j == 8 {
            } else if j == 9 {
            } else if j == 10 {
            } else if j == 11 {
            }
        }
    }
    assert(is_env_key("BUILD_DATE"@)) by {
        reveal_strlit("BUILD_DATE");
        let key = "BUILD_DATE"@;
        assert(key.len() == 10);
        assert forall|j: int| 0 <= j < key.len() implies is_key_char(#[trigger] key[j]) by {
            if j == 0 {
            } else if j == 1 {
            } else if j == 2 {
            } else if j == 3 {
            } else if j == 4 {
            } else if j == 5 {
            } else if j == 6 {
            } else if j == 7 {
            } else if j == 8 {
            } else if j == 9 {
            }
        }
    }
    assert(is_env_key("ARCH"@)) by {
        reveal_strlit("ARCH");
        let key = "ARCH"@;
        assert(key.len() == 4);
        assert forall|j: int| 0 <= j < key.len() implies is_key_char(#[trigger] key[j]) by {
            if j == 0 {
            } else if j == 1 {
            } else if j == 2 {
            } else if j == 3 {
            }
        }
    }
}

/// No two keys of the version file are the same.
pub proof fn lemma_version_keys_differ()
    ensures
        "VERSION"@ != "PKG_RELEASE"@,
        "VERSION"@ != "FULL_VERSION"@,
        "VERSION"@ != "PACKAGE_NAME"@,
        "VERSION"@ != "TAG_VERSION"@,
        "VERSION"@ != "BUILD_JOB_ID"@,
        "VERSION"@ != "BUILD_DATE"@,
        "VERSION"@ != "ARCH"@,
        "PKG_RELEASE"@ != "FULL_VERSION"@,
        "PKG_RELEASE"@ != "PACKAGE_NAME"@,
        "PKG_RELEASE"@ != "TAG_VERSION"@,
        "PKG_RELEASE"@ != "BUILD_JOB_ID"@,
        "PKG_RELEASE"@ != "BUILD_DATE"@,
        "PKG_RELEASE"@ != "ARCH"@,
        "FULL_VERSION"@ != "PACKAGE_NAME"@,
        "FULL_VERSION"@ != "TAG_VERSION"@,
        "FULL_VERSION"@ != "BUILD_JOB_ID"@,
        "FULL_VERSION"@ != "BUILD_DATE"@,
        "FULL_VERSION"@ != "ARCH"@,
        "PACKAGE_NAME"@ != "TAG_VERSION"@,
        "PACKAGE_NAME"@ != "BUILD_JOB_ID"@,
        "PACKAGE_NAME"@ != "BUILD_DATE"@,
        "PACKAGE_NAME"@ != "ARCH"@,
        "TAG_VERSION"@ != "BUILD_JOB_ID"@,
        "TAG_VERSION"@ != "BUILD_DATE"@,
        "TAG_VERSION"@ != "ARCH"@,
        "BUILD_JOB_ID"@ != "BUILD_DATE"@,
        "BUILD_JOB_ID"@ != "ARCH"@,
        "BUILD_DATE"@ != "ARCH"@,
{
    reveal_strlit("VERSION");
    assert("VERSION"@.len() == 7 && "VERSION"@[0] == 'V');
    reveal_strlit("PKG_RELEASE");
    assert("PKG_RELEASE"@.len() == 11 && "PKG_RELEASE"@[0] == 'P');
    reveal_strlit("FULL_VERSION");
    assert("FULL_VERSION"@.len() == 12 && "FULL_VERSION"@[0] == 'F');
    reveal_strlit("PACKAGE_NAME");
    assert("PACKAGE_NAME"@.len() == 12 && "PACKAGE_NAME"@[0] == 'P');
    reveal_strlit("TAG_VERSION");
    assert("TAG_VERSION"@.len() == 11 && "TAG_VERSION"@[0] == 'T');
    reveal_strlit("BUILD_JOB_ID");
    assert("BUILD_JOB_ID"@.len() == 12 && "BUILD_JOB_ID"@[0] == 'B');
    reveal_strlit("BUILD_DATE");
    assert("BUILD_DATE"@.len() == 10 && "BUILD_DATE"@[0] == 'B');
    reveal_strlit("ARCH");
    assert("ARCH"@.len() == 4 && "ARCH"@[0] == 'A');
}

/// A line that assigns a value to a key is read as that assignment: the key
/// as written, the value without the double quotes around it.
pub proof fn lemma_line_reads_back(key: Seq<char>, value: Seq<char>)
    requires
        is_env_key(key),
        value.len() > 0 ==> !is_space(value[0]) && !is_space(value.last()),
    ensures
        line_assignment(env_line(key, value)) == Some(
            (key, trimmed_of(value, CharClass::DoubleQuote)),
        ),
{
    let ws = CharClass::Whitespace;
    let text = env_line(key, value);
    let n = key.len() as int;
    lemma_key_chars(key);
    assert(text[0] == key[0]);
    assert(text[n] == '=');
    if value.len() > 0 {
        assert(text.last() == value.last());
    } else {
        assert(text.last() == '=');
    }
    lemma_trimmed_nothing(text, ws);
    assert forall|j: int| 0 <= j < n implies #[trigger] text[j] != '=' by {
        assert(text[j] == key[j]);
    }
    lemma_first_len_is(text, '=', n);
    assert(text.take(n) =~= key);
    assert(text.skip(n + 1) =~= value);
    lemma_trimmed_nothing(key, ws);
    lemma_trimmed_nothing(value, ws);
}

/// Double quotes around a plain value are taken off again when it is read.
pub proof fn lemma_quotes_come_off(value: Seq<char>)
    requires
        is_plain(value),
    ensures
        trimmed_of(quoted(value), CharClass::DoubleQuote) == value,
        trimmed_of(value, CharClass::DoubleQuote) == value,
{
    let dq = CharClass::DoubleQuote;
    let q = quoted(value);
    lemma_trimmed_nothing(value, dq);
    if value.len() == 0 {
        assert(q[0] == '"' && q[1] == '"' && q.len() == 2);
        lemma_leading_is(q, dq, 2);
        assert(q.skip(2) =~= Seq::<char>::empty());
        assert(trimmed_of(q, dq) =~= value);
    } else {
        assert(q[0] == '"');
        assert(q[1] == value[0]);
        lemma_leading_is(q, dq, 1);
        let rest = q.skip(1);
        assert(rest =~= value + seq!['"']);
        assert(rest.last() == '"');
        assert(rest[rest.len() - 2] == value.last());
        lemma_trailing_is(rest, dq, 1);
        assert(rest.take(rest.len() - 1) =~= value);
    }
}

/// A text made of lines without line feeds, followed by `tail`, splits into
/// those lines and the parts of `tail`.
pub proof fn lemma_parts_of_file(lines: Seq<Seq<char>>, tail: Seq<char>)
    requires
        forall|i: int, j: int|
            0 <= i < lines.len() && 0 <= j < lines[i].len() ==> #[trigger] lines[i][j] != '\n',
    ensures
        parts(file_of(lines) + tail, '\n') == lines + parts(tail, '\n'),
    decreases lines.len(),
{
    if lines.len() == 0 {
        assert(file_of(lines) + tail =~= tail);
        assert(lines + parts(tail, '\n') =~= parts(tail, '\n'));
    } else {
        let init = lines.drop_last();
        let last = lines.last();
        let longer = last + seq!['\n'] + tail;
        assert(file_of(lines) + tail =~= file_of(init) + longer);
        assert forall|i: int, j: int| 0 <= i < init.len() && 0 <= j < init[i].len() implies
            #[trigger] init[i][j] != '\n' by {
            assert(init[i] == lines[i]);
        }
        lemma_parts_of_file(init, longer);
        assert forall|j: int| 0 <= j < last.len() implies #[trigger] last[j] != '\n' by {
            assert(last == lines[lines.len() - 1]);
        }
        lemma_parts_first(last, '\n', tail);
        assert(init + (seq![last] + parts(tail, '\n')) =~= lines + parts(tail, '\n'));
    }
}

/// Lines that each stand for an assignment are read as those assignments.
pub proof fn lemma_assignments_of_lines(lines: Seq<Seq<char>>, entries: Seq<Assignment>)
    requires
        lines.len() == entries.len(),
        forall|i: int| 0 <= i < lines.len() ==> line_assignment(#[trigger] lines[i]) == Some(entries[i]),
    ensures
        assignments_of(lines) == entries,
    decreases lines.len(),
{
    if lines.len() > 0 {
        let init = lines.drop_last();
        assert forall|i: int| 0 <= i < init.len() implies line_assignment(#[trigger] init[i])
            == Some(entries.drop_last()[i]) by {
            assert(init[i] == lines[i]);
        }
        lemma_assignments_of_lines(init, entries.drop_last());
        assert(line_assignment(lines.last()) == Some(entries.last())) by {
            assert(lines.last() == lines[lines.len() - 1]);
        }
        assert(entries.drop_last().push(entries.last()) =~= entries);
    } else {
        assert(entries =~= Seq::<Assignment>::empty());
    }
}

/// A key that is assigned once has the value of that assignment.
pub proof fn lemma_last_value_of_single(entries: Seq<Assignment>, key: Seq<char>, i: int)
    requires
        0 <= i < entries.len(),
        entries[i].0 == key,
        forall|j: int| 0 <= j < entries.len() && j != i ==> (#[trigger] entries[j]).0 != key,
    ensures
        last_value(entries, key) == Some(entries[i].1),
    decreases entries.len(),
{
    if i < entries.len() - 1 {
        let init = entries.drop_last();
        assert(entries.last() == entries[entries.len() - 1]);
        assert(init[i] == entries[i]);
        assert forall|j: int| 0 <= j < init.len() && j != i implies (#[trigger] init[j]).0
            != key by {
            assert(init[j] == entries[j]);
        }
        lemma_last_value_of_single(init, key, i);
    }
}

/// Each line of the environment file is read as the assignment it makes.
pub proof fn lemma_env_lines_read_back(v: VersionView)
    requires
        v.is_plain(),
    ensures
        v.env_lines().len() == v.env_entries().len(),
        forall|i: int|
            0 <= i < v.env_lines().len() ==> line_assignment(#[trigger] v.env_lines()[i]) == Some(
                v.env_entries()[i],
            ),
{
    let lines = v.env_lines();
    let entries = v.env_entries();
    lemma_version_keys();
    assert(line_assignment(lines[0]) == Some(entries[0])) by {
        lemma_quotes_come_off(v.version);
        lemma_line_reads_back("VERSION"@, v.version);
    }
    assert(line_assignment(lines[1]) == Some(entries[1])) by {
        lemma_quotes_come_off(v.pkg_release);
        lemma_line_reads_back("PKG_RELEASE"@, v.pkg_release);
    }
    assert(line_assignment(lines[2]) == Some(entries[2])) by {
        lemma_quotes_come_off(v.full_version);
        lemma_line_reads_back("FULL_VERSION"@, v.full_version);
    }
    assert(line_assignment(lines[3]) == Some(entries[3])) by {
        lemma_quotes_come_off(v.package_name);
        lemma_line_reads_back("PACKAGE_NAME"@, v.package_name);
    }
    assert(line_assignment(lines[4]) == Some(entries[4])) by {
        lemma_quotes_come_off(v.tag_version);
        lemma_line_reads_back("TAG_VERSION"@, v.tag_version);
    }
    assert(line_assignment(lines[5]) == Some(entries[5])) by {
        lemma_quotes_come_off(v.build_job_id);
        lemma_line_reads_back("BUILD_JOB_ID"@, v.build_job_id);
    }
    assert(line_assignment(lines[6]) == Some(entries[6])) by {
        lemma_quotes_come_off(v.build_date);
        lemma_line_reads_back("BUILD_DATE"@, v.build_date);
    }
    assert(line_assignment(lines[7]) == Some(entries[7])) by {
        lemma_quotes_come_off(v.arch);
        assert(quoted(v.arch)[0] == '"' && quoted(v.arch).last() == '"');
        lemma_line_reads_back("ARCH"@, quoted(v.arch));
    }
}

/// No line of the environment file holds a line feed.
pub proof fn lemma_env_lines_are_lines(v: VersionView)
    requires
        v.is_plain(),
    ensures
        forall|i: int, j: int|
            0 <= i < v.env_lines().len() && 0 <= j < v.env_lines()[i].len()
                ==> #[trigger] v.env_lines()[i][j] != '\n',
{
    let lines = v.env_lines();
    lemma_version_keys();
    assert forall|j: int| 0 <= j < lines[0].len() implies #[trigger] lines[0][j] != '\n' by {
        lemma_line_has_no_line_feed("VERSION"@, v.version);
    }
    assert forall|j: int| 0 <= j < lines[1].len() implies #[trigger] lines[1][j] != '\n' by {
        lemma_line_has_no_line_feed("PKG_RELEASE"@, v.pkg_release);
    }
    assert forall|j: int| 0 <= j < lines[2].len() implies #[trigger] lines[2][j] != '\n' by {
        lemma_line_has_no_line_feed("FULL_VERSION"@, v.full_version);
    }
    assert forall|j: int| 0 <= j < lines[3].len() implies #[trigger] lines[3][j] != '\n' by {
        lemma_line_has_no_line_feed("PACKAGE_NAME"@, v.package_name);
    }
    assert forall|j: int| 0 <= j < lines[4].len() implies #[trigger] lines[4][j] != '\n' by {
        lemma_line_has_no_line_feed("TAG_VERSION"@, v.tag_version);
    }
    assert forall|j: int| 0 <= j < lines[5].len() implies #[trigger] lines[5][j] != '\n' by {
        lemma_line_has_no_line_feed("BUILD_JOB_ID"@, v.build_job_id);
    }
    assert forall|j: int| 0 <= j < lines[6].len() implies #[trigger] lines[6][j] != '\n' by {
        lemma_line_has_no_line_feed("BUILD_DATE"@, v.build_date);
    }
    assert forall|j: int| 0 <= j < lines[7].len() implies #[trigger] lines[7][j] != '\n' by {
        assert forall|j: int| 0 <= j < quoted(v.arch).len() implies #[trigger] quoted(v.arch)[j]
            != '\n' by {
            if 0 < j < quoted(v.arch).len() - 1 {
                assert(quoted(v.arch)[j] == v.arch[j - 1]);
            }
        }
        lemma_line_has_no_line_feed("ARCH"@, quoted(v.arch));
    }
}

/// The environment file makes the assignments of its lines and no others.
pub proof fn lemma_env_file_assignments(v: VersionView)
    requires
        v.is_plain(),
    ensures
        assignments(v.env_file()) == v.env_entries(),
{
    let lines = v.env_lines();
    let none = Seq::<char>::empty();
    lemma_env_lines_read_back(v);
    lemma_env_lines_are_lines(v);
    lemma_assignments_of_lines(lines, v.env_entries());
    lemma_parts_of_file(lines, none);
    assert(file_of(lines) + none =~= file_of(lines));
    assert(parts(none, '\n') =~= seq![none]);
    let all = lines.push(none);
    assert(lines + seq![none] =~= all);
    assert(all.drop_last() =~= lines);
    assert(line_assignment(none) is None);
}

/// Each key of the version file is assigned the field it is named after.
pub proof fn lemma_env_entries_hold_fields(v: VersionView)
    ensures
        last_value(v.env_entries(), "VERSION"@) == Some(v.version),
        last_value(v.env_entries(), "PKG_RELEASE"@) == Some(v.pkg_release),
        last_value(v.env_entries(), "FULL_VERSION"@) == Some(v.full_version),
        last_value(v.env_entries(), "PACKAGE_NAME"@) == Some(v.package_name),
        last_value(v.env_entries(), "TAG_VERSION"@) == Some(v.tag_version),
        last_value(v.env_entries(), "BUILD_JOB_ID"@) == Some(v.build_job_id),
        last_value(v.env_entries(), "BUILD_DATE"@) == Some(v.build_date),
        last_value(v.env_entries(), "ARCH"@) == Some(v.arch),
{
    let entries = v.env_entries();
    lemma_version_keys_differ();
    lemma_last_value_of_single(entries, "VERSION"@, 0);
    lemma_last_value_of_single(entries, "PKG_RELEASE"@, 1);
    lemma_last_value_of_single(entries, "FULL_VERSION"@, 2);
    lemma_last_value_of_single(entries, "PACKAGE_NAME"@, 3);
    lemma_last_value_of_single(entries, "TAG_VERSION"@, 4);
    lemma_last_value_of_single(entries, "BUILD_JOB_ID"@, 5);
    lemma_last_value_of_single(entries, "BUILD_DATE"@, 6);
    lemma_last_value_of_single(entries, "ARCH"@, 7);
}

/// Reading undoes writing: the environment file of version information
/// whose fields are plain is read back as that version information,
/// whatever the time of reading.
pub proof fn lemma_env_file_reads_back(v: VersionView, now: Seq<char>)
    requires
        v.is_plain(),
    ensures
        VersionView::of_env(v.env_file(), now) == v,
{
    lemma_env_file_assignments(v);
    lemma_env_entries_hold_fields(v);
}

/// A line that assigns a value without line feeds holds no line feed.
pub proof fn lemma_line_has_no_line_feed(key: Seq<char>, value: Seq<char>)
    requires
        is_env_key(key),
        forall|j: int| 0 <= j < value.len() ==> #[trigger] value[j] != '\n',
    ensures
        forall|j: int| 0 <= j < env_line(key, value).len() ==> #[trigger] env_line(key, value)[j]
            != '\n',
{
    lemma_key_chars(key);
    let line = env_line(key, value);
    assert forall|j: int| 0 <= j < line.len() implies #[trigger] line[j] != '\n' by {
        if j < key.len() {
            assert(line[j] == key[j]);
        } else if j > key.len() {
            assert(line[j] == value[j - key.len() - 1]);
        }
    }
}

} // verus!
