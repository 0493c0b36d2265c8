//! PKGBUILD parsing: package metadata is extracted from the manifest text by
//! pattern matching alone, without running any shell code.

use vstd::prelude::*;
use vstd::string::StringExecFns;
use regex::Regex;
use crate::error::BuilderError;
use crate::pattern::{
    captures_in,
    compiled_from,
    error_text,
    pattern_captures,
    pattern_replaced,
    replace_in,
    rule_compiles,
};
use crate::text::{
    concat_str,
    copy_strings,
    extend_with,
    remove_class,
    same_text,
    split_whitespace,
    tokens,
    trim,
    trim_class,
    trimmed,
    trimmed_of,
    without,
    CharClass,
};

verus! {

/// Information extracted from a PKGBUILD file.
#[derive(Debug, Clone, PartialEq, Eq)]
pub struct PkgbuildInfo {
    /// Package name.
    pub name: String,
    /// Package version.
    pub version: String,
    /// Package release number.
    pub release: String,
    /// Supported architectures.
    pub arch: Vec<String>,
    /// Runtime dependencies.
    pub depends: Vec<String>,
    /// Build-time dependencies.
    pub make_depends: Vec<String>,
    /// Test dependencies.
    pub check_depends: Vec<String>,
}

/// The mathematical content of a [`PkgbuildInfo`].
pub struct InfoView {
    pub name: Seq<char>,
    pub version: Seq<char>,
    pub release: Seq<char>,
    pub arch: Seq<Seq<char>>,
    pub depends: Seq<Seq<char>>,
    pub make_depends: Seq<Seq<char>>,
    pub check_depends: Seq<Seq<char>>,
}

impl InfoView {
    /// The record in which nothing has been found yet.
    pub open spec fn empty() -> InfoView {
        InfoView {
            name: Seq::empty(),
            version: Seq::empty(),
            release: Seq::empty(),
            arch: Seq::empty(),
            depends: Seq::empty(),
            make_depends: Seq::empty(),
            check_depends: Seq::empty(),
        }
    }

    /// Whether the three mandatory fields are all present.
    pub open spec fn complete(self) -> bool {
        self.name.len() > 0 && self.version.len() > 0 && self.release.len() > 0
    }

    /// `version-release`.
    pub open spec fn full_version(self) -> Seq<char> {
        self.version + seq!['-'] + self.release
    }

    /// Runtime, then build-time, then test dependencies.
    pub open spec fn all_dependencies(self) -> Seq<Seq<char>> {
        self.depends + self.make_depends + self.check_depends
    }
}

impl View for PkgbuildInfo {
    type V = InfoView;

    open spec fn view(&self) -> InfoView {
        InfoView {
            name: self.name@,
            version: self.version@,
            release: self.release@,
            arch: self.arch.deep_view(),
            depends: self.depends.deep_view(),
            make_depends: self.make_depends.deep_view(),
            check_depends: self.check_depends.deep_view(),
        }
    }
}

impl Default for PkgbuildInfo {
    fn default() -> (r: Self)
        ensures
            r@ == InfoView::empty(),
    {
        let r = PkgbuildInfo {
            name: String::new(),
            version: String::new(),
            release: String::new(),
            arch: Vec::new(),
            depends: Vec::new(),
            make_depends: Vec::new(),
            check_depends: Vec::new(),
        };
        assert(r.arch.deep_view() =~= Seq::<Seq<char>>::empty());
        assert(r.depends.deep_view() =~= Seq::<Seq<char>>::empty());
        assert(r.make_depends.deep_view() =~= Seq::<Seq<char>>::empty());
        assert(r.check_depends.deep_view() =~= Seq::<Seq<char>>::empty());
        r
    }
}

impl PkgbuildInfo {
    /// A record in which nothing has been found yet.
    pub fn new() -> (r: Self)
        ensures
            r@ == InfoView::empty(),
    {
        PkgbuildInfo::default()
    }

    /// The full package version, `version-release`.
    pub fn full_version(&self) -> (r: String)
        ensures
            r@ == self@.full_version(),
    {
        let mut out = concat_str(self.version.as_str(), "-");
        out.append(self.release.as_str());
        proof {
            reveal_strlit("-");
            assert("-"@ =~= seq!['-']);
        }
        out
    }

    /// All dependencies: runtime, then build-time, then test dependencies,
    /// with duplicates kept.
    pub fn all_dependencies(&self) -> (r: Vec<String>)
        ensures
            r.deep_view() == self@.all_dependencies(),
    {
        let mut deps: Vec<String> = Vec::new();
        assert(deps.deep_view() =~= Seq::<Seq<char>>::empty());
        extend_with(&mut deps, &self.depends);
        extend_with(&mut deps, &self.make_depends);
        extend_with(&mut deps, &self.check_depends);
        assert(deps.deep_view() =~= self@.all_dependencies());
        deps
    }

    /// Whether the package has any dependency at all.
    pub fn has_dependencies(&self) -> (r: bool)
        ensures
            r == (self@.all_dependencies().len() > 0),
    {
        !self.depends.is_empty() || !self.make_depends.is_empty() || !self.check_depends.is_empty()
    }
}


/// Rule for `key = "value"`, with an optional trailing comment. The value is
/// whatever stands between the quotes on one line, a `#` included.
pub const DOUBLE_QUOTED_RULE: &'static str =
    "(?m)^\\s*([a-zA-Z_][a-zA-Z0-9_]*)\\s*=\\s*\"([^\"\\n]*?)\"\\s*(?:#.*)?$";

/// Rule for `key = 'value'`, with an optional trailing comment. The value is
/// whatever stands between the quotes on one line, a `#` included.
pub const SINGLE_QUOTED_RULE: &'static str =
    "(?m)^\\s*([a-zA-Z_][a-zA-Z0-9_]*)\\s*=\\s*'([^'\\n]*?)'\\s*(?:#.*)?$";

/// Rule for `key = value` without quotes, with an optional trailing comment.
pub const UNQUOTED_RULE: &'static str =
    "(?m)^\\s*([a-zA-Z_][a-zA-Z0-9_]*)\\s*=\\s*([^'\"\\n#]+?)\\s*(?:#.*)?$";

/// Rule for `key = ( ... )`, where the body may span several lines.
pub const ARRAY_RULE: &'static str =
    "(?ms)^\\s*([a-zA-Z_][a-zA-Z0-9_]*)\\s*=\\s*\\(\\s*(.*?)\\s*\\)";

/// Rule for a `#` comment running to the end of its line.
pub const COMMENT_RULE: &'static str = "(?m)#.*$";

/// Rule for `key = rest of line`, blind to quotes.
pub const FALLBACK_RULE: &'static str = "(?m)^([a-zA-Z_][a-zA-Z0-9_]*)\\s*=\\s*(.*)$";

/// The capture groups of one match.
pub type Groups = Seq<Option<Seq<char>>>;

/// A scalar assignment: key and value.
pub type Entry = (Seq<char>, Seq<char>);

/// A list assignment: key and items.
pub type ListEntry = (Seq<char>, Seq<Seq<char>>);

/// The text of group `i`, if the pattern has such a group and it took part.
pub open spec fn group(cap: Groups, i: int) -> Option<Seq<char>> {
    if 0 <= i < cap.len() {
        cap[i]
    } else {
        None
    }
}

/// The assignment that a match of a scalar rule stands for: key and value
/// without surrounding whitespace.
pub open spec fn scalar_entry(cap: Groups, value_index: int) -> Option<Entry> {
    match (group(cap, 1), group(cap, value_index)) {
        (Some(k), Some(v)) => Some((trimmed(k), trimmed(v))),
        _ => None,
    }
}

/// The assignments that the matches of a scalar rule stand for, in order.
pub open spec fn scalar_entries(caps: Seq<Groups>, value_index: int) -> Seq<Entry>
    decreases caps.len(),
{
    if caps.len() == 0 {
        Seq::empty()
    } else {
        let rest = scalar_entries(caps.drop_last(), value_index);
        match scalar_entry(caps.last(), value_index) {
            Some(e) => rest.push(e),
            None => rest,
        }
    }
}

/// `text` with every `#` comment removed.
pub open spec fn comment_free(text: Seq<char>) -> Seq<char> {
    pattern_replaced(COMMENT_RULE@, text, ""@)
}

/// The value of a fallback match: comment removed, then surrounding
/// whitespace, then surrounding quotes.
pub open spec fn fallback_value(raw: Seq<char>) -> Seq<char> {
    trimmed_of(trimmed(comment_free(trimmed(raw))), CharClass::Quote)
}

/// The assignment that a match of the fallback rule stands for.
pub open spec fn fallback_entry(cap: Groups) -> Option<Entry> {
    match (group(cap, 1), group(cap, 2)) {
        (Some(k), Some(v)) => Some((trimmed(k), fallback_value(v))),
        _ => None,
    }
}

/// The assignments that the matches of the fallback rule stand for, in order.
pub open spec fn fallback_entries(caps: Seq<Groups>) -> Seq<Entry>
    decreases caps.len(),
{
    if caps.len() == 0 {
        Seq::empty()
    } else {
        let rest = fallback_entries(caps.drop_last());
        match fallback_entry(caps.last()) {
            Some(e) => rest.push(e),
            None => rest,
        }
    }
}

/// The items in the body of an array assignment: comments and quote
/// characters are dropped, what is left is split on whitespace.
pub open spec fn array_items(body: Seq<char>) -> Seq<Seq<char>> {
    tokens(without(comment_free(body), CharClass::Quote))
}

/// The list assignment that a match of the array rule stands for.
pub open spec fn list_entry(cap: Groups) -> Option<ListEntry> {
    match (group(cap, 1), group(cap, 2)) {
        (Some(k), Some(v)) => Some((trimmed(k), array_items(v))),
        _ => None,
    }
}

/// The list assignments that the matches of the array rule stand for, in order.
pub open spec fn list_entries(caps: Seq<Groups>) -> Seq<ListEntry>
    decreases caps.len(),
{
    if caps.len() == 0 {
        Seq::empty()
    } else {
        let rest = list_entries(caps.drop_last());
        match list_entry(caps.last()) {
            Some(e) => rest.push(e),
            None => rest,
        }
    }
}

/// The value of the first assignment to `key` that is not empty; the empty
/// text if there is none.
pub open spec fn first_value(entries: Seq<Entry>, key: Seq<char>) -> Seq<char>
    decreases entries.len(),
{
    if entries.len() == 0 {
        Seq::empty()
    } else if entries[0].0 == key && entries[0].1.len() > 0 {
        entries[0].1
    } else {
        first_value(entries.drop_first(), key)
    }
}

/// A scalar field after a pass over `entries`: a field that is already set
/// keeps its value, an empty one takes the first value assigned to `key`.
pub open spec fn filled(current: Seq<char>, entries: Seq<Entry>, key: Seq<char>) -> Seq<char> {
    if current.len() > 0 {
        current
    } else {
        first_value(entries, key)
    }
}

/// The items of the last assignment to `key`, if there is one.
pub open spec fn last_list(entries: Seq<ListEntry>, key: Seq<char>) -> Option<Seq<Seq<char>>>
    decreases entries.len(),
{
    if entries.len() == 0 {
        None
    } else if entries.last().0 == key {
        Some(entries.last().1)
    } else {
        last_list(entries.drop_last(), key)
    }
}

/// A list field after a pass over `entries`: the last assignment to `key`
/// replaces it wholesale.
pub open spec fn replaced(current: Seq<Seq<char>>, entries: Seq<ListEntry>, key: Seq<char>) -> Seq<
    Seq<char>,
> {
    match last_list(entries, key) {
        Some(items) => items,
        None => current,
    }
}

impl InfoView {
    /// The record after a pass over scalar assignments.
    pub open spec fn with_scalars(self, entries: Seq<Entry>) -> InfoView {
        InfoView {
            name: filled(self.name, entries, "pkgname"@),
            version: filled(self.version, entries, "pkgver"@),
            release: filled(self.release, entries, "pkgrel"@),
            ..self
        }
    }

    /// The record after a pass over list assignments.
    pub open spec fn with_lists(self, entries: Seq<ListEntry>) -> InfoView {
        InfoView {
            arch: replaced(self.arch, entries, "arch"@),
            depends: replaced(self.depends, entries, "depends"@),
            make_depends: replaced(self.make_depends, entries, "makedepends"@),
            check_depends: replaced(self.check_depends, entries, "checkdepends"@),
            ..self
        }
    }
}


/// The text of group `i` of a match, as [`group`] defines it.
pub fn group_of(cap: &Vec<Option<String>>, i: usize) -> (r: Option<&String>)
    ensures
        r.deep_view() == group(cap.deep_view(), i as int),
{
    if i < cap.len() {
        cap[i].as_ref()
    } else {
        None
    }
}

/// Turns the matches of a scalar rule into assignments.
pub fn scalar_entries_of(caps: &Vec<Vec<Option<String>>>, value_index: usize) -> (r: Vec<
    (String, String),
>)
    ensures
        r.deep_view() == scalar_entries(caps.deep_view(), value_index as int),
{
    let mut out: Vec<(String, String)> = Vec::new();
    let mut i: usize = 0;
    assert(out.deep_view() =~= Seq::<Entry>::empty());
    while i < caps.len()
        invariant
            i <= caps.len(),
            out.deep_view() == scalar_entries(caps.deep_view().take(i as int), value_index as int),
        decreases caps.len() - i,
    {
        let ghost before = out.deep_view();
        let cap = &caps[i];
        proof {
            assert(caps.deep_view().take(i + 1).drop_last() =~= caps.deep_view().take(i as int));
            assert(caps.deep_view().take(i + 1).last() == cap.deep_view());
        }
        match (group_of(cap, 1), group_of(cap, value_index)) {
            (Some(k), Some(v)) => {
                let key = trim(k.as_str());
                let val = trim(v.as_str());
                out.push((key, val));
                assert(out.deep_view() =~= before.push((trimmed(k@), trimmed(v@))));
            },
            _ => {},
        }
        i += 1;
    }
    assert(caps.deep_view().take(caps.len() as int) =~= caps.deep_view());
    out
}

/// Sets `field` to `value` unless it already holds something.
fn fill_field(field: &mut String, value: &String)
    ensures
        final(field)@ == (if old(field)@.len() > 0 {
            old(field)@
        } else {
            value@
        }),
{
    if field.as_str().is_empty() {
        *field = value.clone();
    }
}

/// The three scalar keys are different words.
pub proof fn lemma_scalar_keys_differ()
    ensures
        "pkgname"@ != "pkgver"@,
        "pkgname"@ != "pkgrel"@,
        "pkgver"@ != "pkgrel"@,
{
    reveal_strlit("pkgname");
    reveal_strlit("pkgver");
    reveal_strlit("pkgrel");
    assert("pkgname"@.len() == 7);
    assert("pkgver"@[4] == 'e');
    assert("pkgrel"@[4] == 'e');
    assert("pkgver"@[3] == 'v');
    assert("pkgrel"@[3] == 'r');
}

/// One pass over scalar assignments: a mandatory field that is still empty
/// takes the first non-empty value assigned to its key.
pub fn apply_scalars(info: &mut PkgbuildInfo, entries: &Vec<(String, String)>)
    ensures
        final(info)@ == old(info)@.with_scalars(entries.deep_view()),
{
    let mut i: usize = 0;
    assert(entries.deep_view().skip(0) =~= entries.deep_view());
    while i < entries.len()
        invariant
            i <= entries.len(),
            info@.with_scalars(entries.deep_view().skip(i as int)) == old(info)@.with_scalars(
                entries.deep_view(),
            ),
        decreases entries.len() - i,
    {
        let ghost rest = entries.deep_view().skip(i as int);
        let ghost before = info@;
        proof {
            lemma_scalar_keys_differ();
            assert(rest.drop_first() =~= entries.deep_view().skip(i + 1));
            assert(rest[0] == entries@[i as int].deep_view());
        }
        let key = &entries[i].0;
        let val = &entries[i].1;
        if same_text(key.as_str(), "pkgname") {
            fill_field(&mut info.name, val);
        } else if same_text(key.as_str(), "pkgver") {
            fill_field(&mut info.version, val);
        } else if same_text(key.as_str(), "pkgrel") {
            fill_field(&mut info.release, val);
        }
        i += 1;
        assert(info@.with_scalars(rest.drop_first()) == before.with_scalars(rest));
    }
    proof {
        let none = Seq::<Entry>::empty();
        assert(entries.deep_view().skip(entries.len() as int) =~= none);
        assert(filled(info@.name, none, "pkgname"@) =~= info@.name);
        assert(filled(info@.version, none, "pkgver"@) =~= info@.version);
        assert(filled(info@.release, none, "pkgrel"@) =~= info@.release);
    }
}


/// The four list keys are different words.
pub proof fn lemma_list_keys_differ()
    ensures
        "arch"@ != "depends"@,
        "arch"@ != "makedepends"@,
        "arch"@ != "checkdepends"@,
        "depends"@ != "makedepends"@,
        "depends"@ != "checkdepends"@,
        "makedepends"@ != "checkdepends"@,
{
    reveal_strlit("arch");
    reveal_strlit("depends");
    reveal_strlit("makedepends");
    reveal_strlit("checkdepends");
    assert("arch"@.len() == 4);
    assert("depends"@.len() == 7);
    assert("makedepends"@.len() == 11);
    assert("checkdepends"@.len() == 12);
}

/// One pass over list assignments: each recognised key overwrites its field,
/// so the last assignment to a key is the one that stays.
pub fn apply_lists(info: &mut PkgbuildInfo, entries: &Vec<(String, Vec<String>)>)
    ensures
        final(info)@ == old(info)@.with_lists(entries.deep_view()),
{
    let mut i: usize = 0;
    proof {
        let none = entries.deep_view().take(0);
        assert(none =~= Seq::<ListEntry>::empty());
    }
    while i < entries.len()
        invariant
            i <= entries.len(),
            info@ == old(info)@.with_lists(entries.deep_view().take(i as int)),
        decreases entries.len() - i,
    {
        proof {
            lemma_list_keys_differ();
            let next = entries.deep_view().take(i + 1);
            assert(next.drop_last() =~= entries.deep_view().take(i as int));
            assert(next.last() == entries@[i as int].deep_view());
        }
        let key = &entries[i].0;
        let items = &entries[i].1;
        if same_text(key.as_str(), "arch") {
            info.arch = copy_strings(items);
        } else if same_text(key.as_str(), "depends") {
            info.depends = copy_strings(items);
        } else if same_text(key.as_str(), "makedepends") {
            info.make_depends = copy_strings(items);
        } else if same_text(key.as_str(), "checkdepends") {
            info.check_depends = copy_strings(items);
        }
        i += 1;
    }
    assert(entries.deep_view().take(entries.len() as int) =~= entries.deep_view());
}

/// The items of an array body whose comments have been removed already:
/// quote characters are dropped and the rest is split on whitespace.
pub fn items_of(stripped: &str) -> (r: Vec<String>)
    ensures
        r.deep_view() == tokens(without(stripped@, CharClass::Quote)),
{
    let unquoted = remove_class(stripped, CharClass::Quote);
    split_whitespace(unquoted.as_str())
}

/// The value of a fallback match whose comment has been removed already:
/// surrounding whitespace goes first, surrounding quotes after it.
pub fn unquoted_value(stripped: &str) -> (r: String)
    ensures
        r@ == trimmed_of(trimmed(stripped@), CharClass::Quote),
{
    let inner = trim(stripped);
    trim_class(inner.as_str(), CharClass::Quote)
}

/// The text of the error for a record that lacks a mandatory field. It echoes
/// the three fields as far as they were found.
pub open spec fn missing_message(v: InfoView) -> Seq<char> {
    "Missing required variables. Found: pkgname='"@ + v.name + "', pkgver='"@ + v.version
        + "', pkgrel='"@ + v.release
        + "'. This suggests the PKGBUILD format is unusual or contains complex variable assignments."@
}

/// Checks that name, version and release are all present. A record that lacks
/// one of them is rejected with an error for the file at `path`.
pub fn validate_info(info: &PkgbuildInfo, path: &str) -> (r: Result<(), BuilderError>)
    ensures
        r is Ok <==> info@.complete(),
        r matches Err(e) ==> {
            &&& e matches BuilderError::PkgbuildParse { message, path: p }
            &&& message@ == missing_message(info@)
            &&& p@ == path@
        },
{
    if info.name.as_str().is_empty() || info.version.as_str().is_empty()
        || info.release.as_str().is_empty() {
        let mut message = concat_str(
            "Missing required variables. Found: pkgname='",
            info.name.as_str(),
        );
        message.append("', pkgver='");
        message.append(info.version.as_str());
        message.append("', pkgrel='");
        message.append(info.release.as_str());
        message.append(
            "'. This suggests the PKGBUILD format is unusual or contains complex variable assignments.",
        );
        return Err(BuilderError::pkgbuild_parse(message, String::from_str(path)));
    }
    Ok(())
}

/// The assignments that the three strict rules find in `text`: all double
/// quoted ones first, then all single quoted ones, then all unquoted ones.
pub open spec fn strict_entries(text: Seq<char>) -> Seq<Entry> {
    scalar_entries(pattern_captures(DOUBLE_QUOTED_RULE@, text), 2) + scalar_entries(
        pattern_captures(SINGLE_QUOTED_RULE@, text),
        2,
    ) + scalar_entries(pattern_captures(UNQUOTED_RULE@, text), 2)
}

/// The list assignments that the array rule finds in `text`.
pub open spec fn array_entries(text: Seq<char>) -> Seq<ListEntry> {
    list_entries(pattern_captures(ARRAY_RULE@, text))
}

/// The assignments that the fallback rule finds in `text`.
pub open spec fn lenient_entries(text: Seq<char>) -> Seq<Entry> {
    fallback_entries(pattern_captures(FALLBACK_RULE@, text))
}

/// What the strict rules and the array rule extract from `text`.
pub open spec fn extracted_strictly(text: Seq<char>) -> InfoView {
    InfoView::empty().with_scalars(strict_entries(text)).with_lists(array_entries(text))
}

/// What is extracted from `text`: the strict result, and where that lacks a
/// mandatory field, the gaps filled from the fallback rule.
pub open spec fn extracted(text: Seq<char>) -> InfoView {
    let strict = extracted_strictly(text);
    if strict.complete() {
        strict
    } else {
        strict.with_scalars(lenient_entries(text))
    }
}

/// Whether `r` is the outcome of parsing `text`, read from the file at `path`.
pub open spec fn is_parse_of(
    r: Result<PkgbuildInfo, BuilderError>,
    text: Seq<char>,
    path: Seq<char>,
) -> bool {
    match r {
        Ok(info) => extracted(text).complete() && info@ == extracted(text),
        Err(e) => {
            &&& !extracted(text).complete()
            &&& e matches BuilderError::PkgbuildParse { message, path: p }
            &&& message@ == missing_message(extracted(text))
            &&& p@ == path
        },
    }
}

/// Whether `e` reports that a pattern could not be compiled.
pub open spec fn is_compile_failure(e: BuilderError) -> bool {
    e matches BuilderError::Config { message } && "Failed to compile regex: "@.is_prefix_of(
        message@,
    )
}

/// Whether the six rules of the parser all compile.
pub open spec fn rules_compile() -> bool {
    &&& rule_compiles(DOUBLE_QUOTED_RULE@)
    &&& rule_compiles(SINGLE_QUOTED_RULE@)
    &&& rule_compiles(UNQUOTED_RULE@)
    &&& rule_compiles(ARRAY_RULE@)
    &&& rule_compiles(COMMENT_RULE@)
    &&& rule_compiles(FALLBACK_RULE@)
}

/// Compiles one rule.
fn compile(rule: &str) -> (r: Result<Regex, BuilderError>)
    ensures
        r is Ok <==> rule_compiles(rule@),
        r matches Ok(re) ==> compiled_from(re) == Some(rule@),
        r matches Err(e) ==> is_compile_failure(e),
{
    match Regex::new(rule) {
        Ok(re) => Ok(re),
        Err(e) => {
            let reason = error_text(&e);
            let message = concat_str("Failed to compile regex: ", reason.as_str());
            Err(BuilderError::config(message))
        },
    }
}

/// PKGBUILD parser. It holds the compiled rules and nothing else, so one
/// parser serves any number of files.
pub struct PkgbuildParser {
    re_double_quoted: Regex,
    re_single_quoted: Regex,
    re_unquoted: Regex,
    re_array: Regex,
    re_comment: Regex,
    re_simple: Regex,
}

impl PkgbuildParser {
    /// Each field holds the rule it is named after.
    #[verifier::type_invariant]
    spec fn rules_installed(self) -> bool {
        &&& compiled_from(self.re_double_quoted) == Some(DOUBLE_QUOTED_RULE@)
        &&& compiled_from(self.re_single_quoted) == Some(SINGLE_QUOTED_RULE@)
        &&& compiled_from(self.re_unquoted) == Some(UNQUOTED_RULE@)
        &&& compiled_from(self.re_array) == Some(ARRAY_RULE@)
        &&& compiled_from(self.re_comment) == Some(COMMENT_RULE@)
        &&& compiled_from(self.re_simple) == Some(FALLBACK_RULE@)
    }

    /// Compiles the six rules. A parser is returned exactly when all six
    /// compile; a rule that does not is reported as a configuration error.
    pub fn new() -> (r: Result<Self, BuilderError>)
        ensures
            r is Ok <==> rules_compile(),
            r matches Err(e) ==> is_compile_failure(e),
    {
        let re_double_quoted = match compile(DOUBLE_QUOTED_RULE) {
            Ok(re) => re,
            Err(e) => { return Err(e); },
        };
        let re_single_quoted = match compile(SINGLE_QUOTED_RULE) {
            Ok(re) => re,
            Err(e) => { return Err(e); },
        };
        let re_unquoted = match compile(UNQUOTED_RULE) {
            Ok(re) => re,
            Err(e) => { return Err(e); },
        };
        let re_array = match compile(ARRAY_RULE) {
            Ok(re) => re,
            Err(e) => { return Err(e); },
        };
        let re_comment = match compile(COMMENT_RULE) {
            Ok(re) => re,
            Err(e) => { return Err(e); },
        };
        let re_simple = match compile(FALLBACK_RULE) {
            Ok(re) => re,
            Err(e) => { return Err(e); },
        };
        Ok(
            PkgbuildParser {
                re_double_quoted,
                re_single_quoted,
                re_unquoted,
                re_array,
                re_comment,
                re_simple,
            },
        )
    }

    /// Parses the text of a PKGBUILD that was read from `path`. The strict
    /// rules run first, then the array rule; the fallback rule runs only if a
    /// mandatory field is still missing. The record is returned if name,
    /// version and release were all found, and an error that echoes the
    /// partial result otherwise.
    pub fn parse_content(&self, content: &str, path: &str) -> (r: Result<
        PkgbuildInfo,
        BuilderError,
    >)
        ensures
            is_parse_of(r, content@, path@),
    {
        let mut info = PkgbuildInfo::new();
        self.parse_single_variables(content, &mut info);
        self.parse_array_variables(content, &mut info);
        if info.name.as_str().is_empty() || info.version.as_str().is_empty()
            || info.release.as_str().is_empty() {
            self.fallback_parse(content, &mut info);
        }
        match validate_info(&info, path) {
            Ok(()) => Ok(info),
            Err(e) => Err(e),
        }
    }

    /// Runs the three strict rules: double quoted, single quoted, unquoted.
    fn parse_single_variables(&self, content: &str, info: &mut PkgbuildInfo)
        ensures
            final(info)@ == old(info)@.with_scalars(strict_entries(content@)),
    {
        proof {
            use_type_invariant(self);
        }
        let ghost start = info@;
        let ghost a = scalar_entries(pattern_captures(DOUBLE_QUOTED_RULE@, content@), 2);
        let ghost b = scalar_entries(pattern_captures(SINGLE_QUOTED_RULE@, content@), 2);
        let ghost c = scalar_entries(pattern_captures(UNQUOTED_RULE@, content@), 2);
        self.process_variable_matches(&self.re_double_quoted, content, info, 2);
        self.process_variable_matches(&self.re_single_quoted, content, info, 2);
        self.process_variable_matches(&self.re_unquoted, content, info, 2);
        proof {
            lemma_passes_compose(start, a, b);
            lemma_passes_compose(start, a + b, c);
        }
    }

    /// Runs the array rule and overwrites the list fields it names.
    fn parse_array_variables(&self, content: &str, info: &mut PkgbuildInfo)
        ensures
            final(info)@ == old(info)@.with_lists(array_entries(content@)),
    {
        proof {
            use_type_invariant(self);
        }
        let caps = captures_in(&self.re_array, content);
        let mut entries: Vec<(String, Vec<String>)> = Vec::new();
        let mut i: usize = 0;
        assert(entries.deep_view() =~= Seq::<ListEntry>::empty());
        while i < caps.len()
            invariant
                i <= caps.len(),
                entries.deep_view() == list_entries(caps.deep_view().take(i as int)),
            decreases caps.len() - i,
        {
            let ghost before = entries.deep_view();
            let cap = &caps[i];
            proof {
                assert(caps.deep_view().take(i + 1).drop_last() =~= caps.deep_view().take(
                    i as int,
                ));
                assert(caps.deep_view().take(i + 1).last() == cap.deep_view());
            }
            match (group_of(cap, 1), group_of(cap, 2)) {
                (Some(k), Some(v)) => {
                    let key = trim(k.as_str());
                    let items = self.clean_array_content(v.as_str());
                    entries.push((key, items));
                    assert(entries.deep_view() =~= before.push((trimmed(k@), array_items(v@))));
                },
                _ => {},
            }
            i += 1;
        }
        assert(caps.deep_view().take(caps.len() as int) =~= caps.deep_view());
        apply_lists(info, &entries);
    }

    /// Runs one scalar rule and fills the mandatory fields that are still
    /// empty. The value is capture group `value_index` of the rule.
    fn process_variable_matches(
        &self,
        regex: &Regex,
        content: &str,
        info: &mut PkgbuildInfo,
        value_index: usize,
    )
        requires
            compiled_from(*regex) is Some,
        ensures
            final(info)@ == old(info)@.with_scalars(
                scalar_entries(
                    pattern_captures(compiled_from(*regex)->0, content@),
                    value_index as int,
                ),
            ),
    {
        let caps = captures_in(regex, content);
        let entries = scalar_entries_of(&caps, value_index);
        apply_scalars(info, &entries);
    }

    /// The items of an array body: comments are removed line by line, quote
    /// characters are dropped, and what is left is split on whitespace.
    pub fn clean_array_content(&self, content: &str) -> (r: Vec<String>)
        ensures
            r.deep_view() == array_items(content@),
    {
        proof {
            use_type_invariant(self);
        }
        let cleaned = replace_in(&self.re_comment, content, "");
        items_of(cleaned.as_str())
    }

    /// Runs the fallback rule and fills the mandatory fields that are still
    /// empty.
    fn fallback_parse(&self, content: &str, info: &mut PkgbuildInfo)
        ensures
            final(info)@ == old(info)@.with_scalars(lenient_entries(content@)),
    {
        proof {
            use_type_invariant(self);
        }
        let caps = captures_in(&self.re_simple, content);
        let mut entries: Vec<(String, String)> = Vec::new();
        let mut i: usize = 0;
        assert(entries.deep_view() =~= Seq::<Entry>::empty());
        while i < caps.len()
            invariant
                i <= caps.len(),
                compiled_from(self.re_comment) == Some(COMMENT_RULE@),
                entries.deep_view() == fallback_entries(caps.deep_view().take(i as int)),
            decreases caps.len() - i,
        {
            let ghost before = entries.deep_view();
            let cap = &caps[i];
            proof {
                assert(caps.deep_view().take(i + 1).drop_last() =~= caps.deep_view().take(
                    i as int,
                ));
                assert(caps.deep_view().take(i + 1).last() == cap.deep_view());
            }
            match (group_of(cap, 1), group_of(cap, 2)) {
                (Some(k), Some(v)) => {
                    let key = trim(k.as_str());
                    let raw = trim(v.as_str());
                    let cleaned = replace_in(&self.re_comment, raw.as_str(), "");
                    let val = unquoted_value(cleaned.as_str());
                    entries.push((key, val));
                    assert(entries.deep_view() =~= before.push((trimmed(k@), fallback_value(v@))));
                },
                _ => {},
            }
            i += 1;
        }
        assert(caps.deep_view().take(caps.len() as int) =~= caps.deep_view());
        apply_scalars(info, &entries);
    }
}

/// The first value assigned to `key` in `a + b` is the one found in `a`, and
/// the one found in `b` only if `a` assigns none.
pub proof fn lemma_first_value_concat(a: Seq<Entry>, b: Seq<Entry>, key: Seq<char>)
    ensures
        first_value(a + b, key) == filled(first_value(a, key), b, key),
    decreases a.len(),
{
    if a.len() == 0 {
        assert(a + b =~= b);
        assert(first_value(a, key) =~= Seq::<char>::empty());
    } else {
        assert((a + b)[0] == a[0]);
        assert((a + b).drop_first() =~= a.drop_first() + b);
        lemma_first_value_concat(a.drop_first(), b, key);
    }
}

/// Two scalar passes in a row amount to one pass over both lists of
/// assignments.
pub proof fn lemma_passes_compose(v: InfoView, a: Seq<Entry>, b: Seq<Entry>)
    ensures
        v.with_scalars(a).with_scalars(b) == v.with_scalars(a + b),
{
    lemma_first_value_concat(a, b, "pkgname"@);
    lemma_first_value_concat(a, b, "pkgver"@);
    lemma_first_value_concat(a, b, "pkgrel"@);
}

} // verus!
