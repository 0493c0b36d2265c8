//! What parsing guarantees, stated over the extraction model and proved from
//! the contracts of the parser.

use vstd::prelude::*;
use crate::error::BuilderError;
use crate::pattern::pattern_captures;
use crate::pkgbuild::{
    array_items,
    comment_free,
    extracted,
    extracted_strictly,
    filled,
    first_value,
    group,
    is_parse_of,
    lemma_first_value_concat,
    lenient_entries,
    missing_message,
    scalar_entries,
    scalar_entry,
    strict_entries,
    Entry,
    Groups,
    InfoView,
    PkgbuildInfo,
    DOUBLE_QUOTED_RULE,
    SINGLE_QUOTED_RULE,
    UNQUOTED_RULE,
};
use crate::text::{
    is_space,
    lemma_token_chars_come_from_text,
    lemma_tokens_keep_content,
    lemma_trimmed_is_clean,
    lemma_without_is_clean,
    tokens,
    without,
    CharClass,
};

verus! {

/// The three ways in which a scalar can be written.
pub enum QuoteStyle {
    /// `key="value"`.
    Double,
    /// `key='value'`.
    Single,
    /// `key=value`.
    Bare,
}

/// The assignments that the rule of one style finds in `text`.
pub open spec fn style_entries(text: Seq<char>, style: QuoteStyle) -> Seq<Entry> {
    match style {
        QuoteStyle::Double => scalar_entries(pattern_captures(DOUBLE_QUOTED_RULE@, text), 2),
        QuoteStyle::Single => scalar_entries(pattern_captures(SINGLE_QUOTED_RULE@, text), 2),
        QuoteStyle::Bare => scalar_entries(pattern_captures(UNQUOTED_RULE@, text), 2),
    }
}

/// Whether `key` is one of the three mandatory scalars.
pub open spec fn is_scalar_key(key: Seq<char>) -> bool {
    key == "pkgname"@ || key == "pkgver"@ || key == "pkgrel"@
}

/// The field of `v` that `key` names.
pub open spec fn field(v: InfoView, key: Seq<char>) -> Seq<char> {
    if key == "pkgname"@ {
        v.name
    } else if key == "pkgver"@ {
        v.version
    } else {
        v.release
    }
}

/// Whether entry `i` gives `key` a value that is not empty.
pub open spec fn declares(entries: Seq<Entry>, key: Seq<char>, i: int) -> bool {
    0 <= i < entries.len() && entries[i].0 == key && entries[i].1.len() > 0
}

/// Whether no entry gives `key` a value that is not empty.
pub open spec fn silent(entries: Seq<Entry>, key: Seq<char>) -> bool {
    forall|j: int| !declares(entries, key, j)
}

/// Whether entry `i` is the first that gives `key` a value that is not empty.
pub open spec fn declares_first(entries: Seq<Entry>, key: Seq<char>, i: int) -> bool {
    declares(entries, key, i) && forall|j: int| 0 <= j < i ==> !declares(entries, key, j)
}

/// The first declaration in a list of assignments is the value found.
pub proof fn lemma_first_value_is(entries: Seq<Entry>, key: Seq<char>, i: int)
    requires
        declares_first(entries, key, i),
    ensures
        first_value(entries, key) == entries[i].1,
    decreases i,
{
    if i > 0 {
        let rest = entries.drop_first();
        assert(!declares(entries, key, 0));
        assert(rest[i - 1] == entries[i]);
        assert forall|j: int| 0 <= j < i - 1 implies !declares(rest, key, j) by {
            assert(!declares(entries, key, j + 1));
            assert(rest[j] == entries[j + 1]);
        }
        lemma_first_value_is(rest, key, i - 1);
    }
}

/// Without a declaration no value is found.
pub proof fn lemma_first_value_silent(entries: Seq<Entry>, key: Seq<char>)
    requires
        silent(entries, key),
    ensures
        first_value(entries, key).len() == 0,
    decreases entries.len(),
{
    if entries.len() > 0 {
        let rest = entries.drop_first();
        assert(!declares(entries, key, 0));
        assert forall|j: int| !declares(rest, key, j) by {
            assert(!declares(entries, key, j + 1));
            if 0 <= j < rest.len() {
                assert(rest[j] == entries[j + 1]);
            }
        }
        lemma_first_value_silent(rest, key);
    }
}

/// Every assignment of a scalar rule is taken from a match of the rule: its
/// key is group 1 and its value is the value group of that match, both
/// without surrounding whitespace, so that the value neither starts nor ends
/// with whitespace.
pub proof fn lemma_entries_are_captured_text(caps: Seq<Groups>, value_index: int, i: int)
    requires
        0 <= i < scalar_entries(caps, value_index).len(),
    ensures
        exists|k: int|
            0 <= k < caps.len() && #[trigger] scalar_entry(caps[k], value_index) == Some(
                scalar_entries(caps, value_index)[i],
            ),
        ({
            let value = scalar_entries(caps, value_index)[i].1;
            value.len() > 0 ==> !is_space(value[0]) && !is_space(value.last())
        }),
    decreases caps.len(),
{
    let entries = scalar_entries(caps, value_index);
    let rest = scalar_entries(caps.drop_last(), value_index);
    if i < rest.len() {
        assert(entries[i] == rest[i]);
        lemma_entries_are_captured_text(caps.drop_last(), value_index, i);
        let k = choose|k: int|
            0 <= k < caps.drop_last().len() && #[trigger] scalar_entry(
                caps.drop_last()[k],
                value_index,
            ) == Some(rest[i]);
        assert(caps[k] == caps.drop_last()[k]);
        assert(scalar_entry(caps[k], value_index) == Some(entries[i]));
    } else {
        let k = caps.len() - 1;
        assert(scalar_entry(caps[k], value_index) == Some(entries[i]));
        let raw = group(caps[k], value_index)->0;
        lemma_trimmed_is_clean(raw, CharClass::Whitespace);
    }
}

/// What the strict rules find for `key` is the first value assigned to it,
/// and the fallback rule is consulted for it only if they find nothing.
pub proof fn lemma_field_of_extracted(text: Seq<char>, key: Seq<char>)
    requires
        is_scalar_key(key),
    ensures
        field(extracted_strictly(text), key) == first_value(strict_entries(text), key),
        field(extracted(text), key) == (if extracted_strictly(text).complete() {
            first_value(strict_entries(text), key)
        } else {
            filled(first_value(strict_entries(text), key), lenient_entries(text), key)
        }),
{
    crate::pkgbuild::lemma_scalar_keys_differ();
}

/// A scalar keeps its first declaration: of all the assignments that the
/// strict rules capture, scanned double quoted first, single quoted second
/// and unquoted last, the first to give the key a value that is not empty is
/// the one that parsing retains, whatever is declared after it.
pub proof fn lemma_first_declaration_wins(text: Seq<char>, key: Seq<char>, i: int)
    requires
        is_scalar_key(key),
        declares_first(strict_entries(text), key, i),
    ensures
        field(extracted(text), key) == strict_entries(text)[i].1,
{
    lemma_first_value_is(strict_entries(text), key, i);
    lemma_field_of_extracted(text, key);
}

/// A scalar that is declared in one quoting style alone is parsed as
/// declared: where the rule of `style` captures a value for `key`, and the
/// rules of the other two styles capture none, parsing yields the first
/// value that the rule captures, without surrounding whitespace.
pub proof fn lemma_single_style_declaration(
    text: Seq<char>,
    style: QuoteStyle,
    key: Seq<char>,
    i: int,
)
    requires
        is_scalar_key(key),
        declares_first(style_entries(text, style), key, i),
        !(style is Double) ==> silent(style_entries(text, QuoteStyle::Double), key),
        !(style is Single) ==> silent(style_entries(text, QuoteStyle::Single), key),
        !(style is Bare) ==> silent(style_entries(text, QuoteStyle::Bare), key),
    ensures
        field(extracted(text), key) == style_entries(text, style)[i].1,
{
    let a = style_entries(text, QuoteStyle::Double);
    let b = style_entries(text, QuoteStyle::Single);
    let c = style_entries(text, QuoteStyle::Bare);
    assert(strict_entries(text) == a + b + c);
    lemma_first_value_concat(a, b, key);
    lemma_first_value_concat(a + b, c, key);
    match style {
        QuoteStyle::Double => {
            lemma_first_value_is(a, key, i);
        },
        QuoteStyle::Single => {
            lemma_first_value_silent(a, key);
            lemma_first_value_is(b, key, i);
        },
        QuoteStyle::Bare => {
            lemma_first_value_silent(a, key);
            lemma_first_value_silent(b, key);
            lemma_first_value_is(c, key, i);
        },
    }
    lemma_field_of_extracted(text, key);
}

/// A manifest in which the strict rules capture a name, a version and a
/// release is parsed, and the record holds the three values captured first.
pub proof fn lemma_declared_manifest_parses(
    r: Result<PkgbuildInfo, BuilderError>,
    text: Seq<char>,
    path: Seq<char>,
    name_at: int,
    version_at: int,
    release_at: int,
)
    requires
        is_parse_of(r, text, path),
        declares_first(strict_entries(text), "pkgname"@, name_at),
        declares_first(strict_entries(text), "pkgver"@, version_at),
        declares_first(strict_entries(text), "pkgrel"@, release_at),
    ensures
        r matches Ok(info) && info@.name == strict_entries(text)[name_at].1 && info@.version
            == strict_entries(text)[version_at].1 && info@.release == strict_entries(
            text,
        )[release_at].1,
{
    lemma_first_declaration_wins(text, "pkgname"@, name_at);
    lemma_first_declaration_wins(text, "pkgver"@, version_at);
    lemma_first_declaration_wins(text, "pkgrel"@, release_at);
    crate::pkgbuild::lemma_scalar_keys_differ();
}

/// The items of an array are what its body holds once comments are removed,
/// in the order of the body: each item is a non-empty run without whitespace
/// and without quote characters, and the items put end to end are the
/// comment-free body without its quote characters and its whitespace.
pub proof fn lemma_array_items_keep_content(body: Seq<char>)
    ensures
        array_items(body).flatten() == without(
            without(comment_free(body), CharClass::Quote),
            CharClass::Whitespace,
        ),
        forall|i: int| 0 <= i < array_items(body).len() ==> (#[trigger] array_items(body)[i]).len()
            > 0,
        forall|i: int, j: int|
            0 <= i < array_items(body).len() && 0 <= j < array_items(body)[i].len() ==> {
                let c = #[trigger] array_items(body)[i][j];
                !is_space(c) && c != '\'' && c != '"'
            },
{
    let unquoted = without(comment_free(body), CharClass::Quote);
    lemma_tokens_keep_content(unquoted);
    lemma_without_is_clean(comment_free(body), CharClass::Quote);
    let items = tokens(unquoted);
    assert forall|i: int, j: int| 0 <= i < items.len() && 0 <= j < items[i].len() implies {
        let c = #[trigger] items[i][j];
        !is_space(c) && c != '\'' && c != '"'
    } by {
        lemma_token_chars_come_from_text(unquoted, i, j);
    }
}

/// Parsing is a function of the text: two outcomes of parsing one text, read
/// from one path, agree in whether they succeed, in the record, and in the
/// error.
pub proof fn lemma_parse_is_deterministic(
    first: Result<PkgbuildInfo, BuilderError>,
    second: Result<PkgbuildInfo, BuilderError>,
    text: Seq<char>,
    path: Seq<char>,
)
    requires
        is_parse_of(first, text, path),
        is_parse_of(second, text, path),
    ensures
        first is Ok <==> second is Ok,
        first matches Ok(a) ==> second matches Ok(b) && a@ == b@,
        first matches Err(BuilderError::PkgbuildParse { message, path: at }) ==> second matches Err(
            BuilderError::PkgbuildParse { message: again, path: at_again },
        ) && message@ == again@ && at@ == at_again@,
{
}

/// A manifest without a release is rejected: where no rule captures a value
/// for `pkgrel`, parsing fails, and the error text echoes the name and the
/// version as far as they were found, next to an empty release.
pub proof fn lemma_missing_release_is_reported(
    r: Result<PkgbuildInfo, BuilderError>,
    text: Seq<char>,
    path: Seq<char>,
)
    requires
        is_parse_of(r, text, path),
        silent(strict_entries(text), "pkgrel"@),
        silent(lenient_entries(text), "pkgrel"@),
    ensures
        extracted(text).release.len() == 0,
        r matches Err(BuilderError::PkgbuildParse { message, path: p }) && p@ == path && message@
            == "Missing required variables. Found: pkgname='"@ + extracted(text).name
            + "', pkgver='"@ + extracted(text).version + "', pkgrel='"@ + Seq::<char>::empty()
            + "'. This suggests the PKGBUILD format is unusual or contains complex variable assignments."@,
{
    lemma_first_value_silent(strict_entries(text), "pkgrel"@);
    lemma_first_value_silent(lenient_entries(text), "pkgrel"@);
    lemma_field_of_extracted(text, "pkgrel"@);
    crate::pkgbuild::lemma_scalar_keys_differ();
    assert(extracted(text).release =~= Seq::<char>::empty());
}

/// A manifest that declares none of the mandatory scalars is rejected.
pub proof fn lemma_empty_manifest_is_rejected(
    r: Result<PkgbuildInfo, BuilderError>,
    text: Seq<char>,
    path: Seq<char>,
)
    requires
        is_parse_of(r, text, path),
        forall|key: Seq<char>|
            is_scalar_key(key) ==> silent(strict_entries(text), key) && silent(
                lenient_entries(text),
                key,
            ),
    ensures
        r matches Err(BuilderError::PkgbuildParse { message, path: p }) && p@ == path && message@
            == missing_message(extracted(text)),
        extracted(text).name.len() == 0,
        extracted(text).version.len() == 0,
        extracted(text).release.len() == 0,
{
    assert(is_scalar_key("pkgname"@) && is_scalar_key("pkgver"@) && is_scalar_key("pkgrel"@));
    lemma_first_value_silent(strict_entries(text), "pkgname"@);
    lemma_first_value_silent(lenient_entries(text), "pkgname"@);
    lemma_first_value_silent(strict_entries(text), "pkgver"@);
    lemma_first_value_silent(lenient_entries(text), "pkgver"@);
    lemma_first_value_silent(strict_entries(text), "pkgrel"@);
    lemma_first_value_silent(lenient_entries(text), "pkgrel"@);
    lemma_field_of_extracted(text, "pkgname"@);
    lemma_field_of_extracted(text, "pkgver"@);
    lemma_field_of_extracted(text, "pkgrel"@);
    crate::pkgbuild::lemma_scalar_keys_differ();
}

} // verus!
