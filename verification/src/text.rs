//! Character-level text utilities shared by the parsers of this crate.
//!
//! Every function here is specified over `Seq<char>`, the view of a string.

use vstd::prelude::*;
use vstd::string::StringExecFns;

verus! {

/// `String::push` appends one character to the end of the string.
pub assume_specification [String::push] (s: &mut String, ch: char)
    ensures
        final(s)@ == old(s)@.push(ch),
;

/// A class of characters that can be trimmed, removed or split on.
#[derive(Clone, Copy, Debug, PartialEq, Eq)]
pub enum CharClass {
    /// Characters with the Unicode `White_Space` property.
    Whitespace,
    /// The single quote `'` and the double quote `"`.
    Quote,
    /// The double quote `"` alone.
    DoubleQuote,
}

/// Whether `c` carries the Unicode `White_Space` property.
pub open spec fn is_space(c: char) -> bool {
    let n = c as u32;
    (0x09 <= n <= 0x0D) || n == 0x20 || n == 0x85 || n == 0xA0 || n == 0x1680 || (0x2000 <= n
        <= 0x200A) || n == 0x2028 || n == 0x2029 || n == 0x202F || n == 0x205F || n == 0x3000
}

impl CharClass {
    /// Membership of `c` in the class.
    pub open spec fn has(self, c: char) -> bool {
        match self {
            CharClass::Whitespace => is_space(c),
            CharClass::Quote => c == '\'' || c == '"',
            CharClass::DoubleQuote => c == '"',
        }
    }

    /// Executable membership test.
    pub fn contains(self, c: char) -> (r: bool)
        ensures
            r == self.has(c),
    {
        match self {
            CharClass::Whitespace => {
                let n: u32 = c as u32;
                (0x09 <= n && n <= 0x0D) || n == 0x20 || n == 0x85 || n == 0xA0 || n == 0x1680 || (
                0x2000 <= n && n <= 0x200A) || n == 0x2028 || n == 0x2029 || n == 0x202F || n
                    == 0x205F || n == 0x3000
            },
            CharClass::Quote => c == '\'' || c == '"',
            CharClass::DoubleQuote => c == '"',
        }
    }
}

/// How many characters at the front of `s` belong to `class`.
pub open spec fn leading(s: Seq<char>, class: CharClass) -> nat
    decreases s.len(),
{
    if s.len() > 0 && class.has(s[0]) {
        1 + leading(s.drop_first(), class)
    } else {
        0
    }
}

/// How many characters at the back of `s` belong to `class`.
pub open spec fn trailing(s: Seq<char>, class: CharClass) -> nat
    decreases s.len(),
{
    if s.len() > 0 && class.has(s.last()) {
        1 + trailing(s.drop_last(), class)
    } else {
        0
    }
}

/// `s` without its longest prefix and its longest suffix made of `class`.
pub open spec fn trimmed_of(s: Seq<char>, class: CharClass) -> Seq<char> {
    let rest = s.skip(leading(s, class) as int);
    rest.take(rest.len() - trailing(rest, class))
}

/// `s` without surrounding whitespace.
pub open spec fn trimmed(s: Seq<char>) -> Seq<char> {
    trimmed_of(s, CharClass::Whitespace)
}

/// `s` with every character of `class` removed.
pub open spec fn without(s: Seq<char>, class: CharClass) -> Seq<char> {
    s.filter(|c: char| !class.has(c))
}

/// Length of the maximal whitespace-free prefix of `s`.
pub open spec fn word_len(s: Seq<char>) -> nat
    decreases s.len(),
{
    if s.len() > 0 && !is_space(s[0]) {
        1 + word_len(s.drop_first())
    } else {
        0
    }
}

/// `word_len` stays within `s`, covers only non-whitespace, and stops at the
/// first whitespace character.
pub proof fn lemma_word_len(s: Seq<char>)
    ensures
        word_len(s) <= s.len(),
        s.len() > 0 && !is_space(s[0]) ==> word_len(s) >= 1,
        forall|j: int| 0 <= j < word_len(s) ==> !is_space(#[trigger] s[j]),
        word_len(s) < s.len() ==> is_space(s[word_len(s) as int]),
    decreases s.len(),
{
    if s.len() > 0 && !is_space(s[0]) {
        let t = s.drop_first();
        lemma_word_len(t);
        assert forall|j: int| 0 <= j < word_len(s) implies !is_space(#[trigger] s[j]) by {
            if j > 0 {
                assert(s[j] == t[j - 1]);
            }
        }
        if word_len(s) < s.len() {
            assert(s[word_len(s) as int] == t[word_len(t) as int]);
        }
    }
}

/// The maximal whitespace-free runs of `s`, in order of appearance.
pub open spec fn tokens(s: Seq<char>) -> Seq<Seq<char>>
    decreases s.len(),
{
    if s.len() == 0 {
        Seq::empty()
    } else if is_space(s[0]) {
        tokens(s.drop_first())
    } else {
        let n = word_len(s) as int;
        proof {
            lemma_word_len(s);
        }
        seq![s.take(n)] + tokens(s.skip(n))
    }
}

/// `leading` is bounded by the length and counts exactly the run at the front.
pub proof fn lemma_leading(s: Seq<char>, class: CharClass)
    ensures
        leading(s, class) <= s.len(),
        forall|j: int| 0 <= j < leading(s, class) ==> class.has(#[trigger] s[j]),
        leading(s, class) < s.len() ==> !class.has(s[leading(s, class) as int]),
    decreases s.len(),
{
    if s.len() > 0 && class.has(s[0]) {
        let t = s.drop_first();
        lemma_leading(t, class);
        assert forall|j: int| 0 <= j < leading(s, class) implies class.has(#[trigger] s[j]) by {
            if j > 0 {
                assert(s[j] == t[j - 1]);
            }
        }
        if leading(s, class) < s.len() {
            assert(s[leading(s, class) as int] == t[leading(t, class) as int]);
        }
    }
}

/// `trailing` is bounded by the length and counts exactly the run at the back.
pub proof fn lemma_trailing(s: Seq<char>, class: CharClass)
    ensures
        trailing(s, class) <= s.len(),
        forall|j: int| s.len() - trailing(s, class) <= j < s.len() ==> class.has(#[trigger] s[j]),
        trailing(s, class) < s.len() ==> !class.has(s[s.len() - trailing(s, class) - 1]),
    decreases s.len(),
{
    if s.len() > 0 && class.has(s.last()) {
        let t = s.drop_last();
        lemma_trailing(t, class);
        assert forall|j: int| s.len() - trailing(s, class) <= j < s.len() implies class.has(
            #[trigger] s[j],
        ) by {
            if j < s.len() - 1 {
                assert(s[j] == t[j]);
            }
        }
        if trailing(s, class) < s.len() {
            assert(s[s.len() - trailing(s, class) - 1] == t[t.len() - trailing(t, class) - 1]);
        }
    }
}

/// Trimming cuts a text at both ends and nowhere else: what is cut off is
/// made of the class, what is left neither starts nor ends with it.
pub proof fn lemma_trimmed_is_clean(s: Seq<char>, class: CharClass)
    ensures
        ({
            let t = trimmed_of(s, class);
            let a = leading(s, class) as int;
            &&& 0 <= a <= a + t.len() <= s.len()
            &&& t == s.subrange(a, a + t.len())
            &&& forall|j: int| 0 <= j < a ==> class.has(#[trigger] s[j])
            &&& forall|j: int| a + t.len() <= j < s.len() ==> class.has(#[trigger] s[j])
            &&& t.len() > 0 ==> !class.has(t[0]) && !class.has(t.last())
        }),
{
    let a = leading(s, class) as int;
    lemma_leading(s, class);
    let rest = s.skip(a);
    lemma_trailing(rest, class);
    let t = trimmed_of(s, class);
    assert(t =~= s.subrange(a, a + t.len()));
    assert forall|j: int| a + t.len() <= j < s.len() implies class.has(#[trigger] s[j]) by {
        assert(s[j] == rest[j - a]);
    }
    if t.len() > 0 {
        assert(t[0] == s[a]);
        assert(t.last() == rest[rest.len() - trailing(rest, class) - 1]);
    }
}

/// Trimming changes nothing in a text that neither starts nor ends with the
/// class.
pub proof fn lemma_trimmed_nothing(s: Seq<char>, class: CharClass)
    requires
        s.len() > 0 ==> !class.has(s[0]) && !class.has(s.last()),
    ensures
        trimmed_of(s, class) == s,
{
    lemma_leading_is(s, class, 0);
    assert(s.skip(0) =~= s);
    lemma_trailing_is(s, class, 0);
    assert(s.take(s.len() as int) =~= s);
}

/// A run at the front that is followed by a character outside the class, or
/// by the end of `s`, is the whole leading run.
pub proof fn lemma_leading_is(s: Seq<char>, class: CharClass, n: int)
    requires
        0 <= n <= s.len(),
        forall|j: int| 0 <= j < n ==> class.has(#[trigger] s[j]),
        n < s.len() ==> !class.has(s[n]),
    ensures
        leading(s, class) == n,
    decreases n,
{
    if n > 0 {
        let t = s.drop_first();
        assert(class.has(s[0]));
        assert forall|j: int| 0 <= j < n - 1 implies class.has(#[trigger] t[j]) by {
            assert(t[j] == s[j + 1]);
        }
        lemma_leading_is(t, class, n - 1);
    }
}

/// A run at the back that is preceded by a character outside the class, or by
/// the start of `s`, is the whole trailing run.
pub proof fn lemma_trailing_is(s: Seq<char>, class: CharClass, n: int)
    requires
        0 <= n <= s.len(),
        forall|j: int| s.len() - n <= j < s.len() ==> class.has(#[trigger] s[j]),
        n < s.len() ==> !class.has(s[s.len() - n - 1]),
    ensures
        trailing(s, class) == n,
    decreases n,
{
    if n > 0 {
        let t = s.drop_last();
        assert(class.has(s[s.len() - 1]));
        assert forall|j: int| t.len() - (n - 1) <= j < t.len() implies class.has(
            #[trigger] t[j],
        ) by {
            assert(t[j] == s[j]);
        }
        lemma_trailing_is(t, class, n - 1);
    }
}

/// A whitespace-free run at the front that is followed by whitespace, or by
/// the end of `s`, is the whole first word.
pub proof fn lemma_word_len_is(s: Seq<char>, n: int)
    requires
        0 <= n <= s.len(),
        forall|j: int| 0 <= j < n ==> !is_space(#[trigger] s[j]),
        n < s.len() ==> is_space(s[n]),
    ensures
        word_len(s) == n,
    decreases n,
{
    if n > 0 {
        let t = s.drop_first();
        assert(!is_space(s[0]));
        assert forall|j: int| 0 <= j < n - 1 implies !is_space(#[trigger] t[j]) by {
            assert(t[j] == s[j + 1]);
        }
        lemma_word_len_is(t, n - 1);
    }
}

/// Removing a class from a text made of two parts removes it from each.
pub proof fn lemma_without_concat(a: Seq<char>, b: Seq<char>, class: CharClass)
    ensures
        without(a + b, class) == without(a, class) + without(b, class),
{
    Seq::filter_distributes_over_add(a, b, |c: char| !class.has(c));
}

/// Removing a class from a text that holds none of it changes nothing.
pub proof fn lemma_without_nothing(s: Seq<char>, class: CharClass)
    requires
        forall|j: int| 0 <= j < s.len() ==> !class.has(#[trigger] s[j]),
    ensures
        without(s, class) == s,
    decreases s.len(),
{
    reveal(Seq::filter);
    if s.len() > 0 {
        let t = s.drop_last();
        assert forall|j: int| 0 <= j < t.len() implies !class.has(#[trigger] t[j]) by {
            assert(t[j] == s[j]);
        }
        lemma_without_nothing(t, class);
        assert(!class.has(s[s.len() - 1]));
        assert(t.push(s.last()) =~= s);
    } else {
        assert(without(s, class) =~= s);
    }
}

/// What is left after a class is removed holds none of it.
pub proof fn lemma_without_is_clean(s: Seq<char>, class: CharClass)
    ensures
        forall|j: int| 0 <= j < without(s, class).len() ==> !class.has(#[trigger] without(s, class)[j]),
{
    let keep = |c: char| !class.has(c);
    assert forall|j: int| 0 <= j < without(s, class).len() implies !class.has(
        #[trigger] without(s, class)[j],
    ) by {
        s.lemma_filter_pred(keep, j);
    }
}

/// Tokens lose nothing but whitespace: every token is a non-empty run
/// without whitespace, and the tokens put end to end are the text without
/// its whitespace, so that what the text holds stays in its order.
pub proof fn lemma_tokens_keep_content(s: Seq<char>)
    ensures
        tokens(s).flatten() == without(s, CharClass::Whitespace),
        forall|i: int| 0 <= i < tokens(s).len() ==> (#[trigger] tokens(s)[i]).len() > 0,
        forall|i: int, j: int|
            0 <= i < tokens(s).len() && 0 <= j < tokens(s)[i].len() ==> !is_space(
                #[trigger] tokens(s)[i][j],
            ),
    decreases s.len(),
{
    let ws = CharClass::Whitespace;
    if s.len() == 0 {
        assert(without(s, ws) =~= Seq::<char>::empty()) by {
            reveal(Seq::filter);
        }
    } else if is_space(s[0]) {
        let rest = s.drop_first();
        lemma_tokens_keep_content(rest);
        let head = seq![s[0]];
        assert(head + rest =~= s);
        lemma_without_concat(head, rest, ws);
        assert(without(head, ws) =~= Seq::<char>::empty()) by {
            reveal_with_fuel(Seq::filter, 2);
            assert(head.drop_last() =~= Seq::<char>::empty());
            assert(ws.has(head.last()));
        }
        assert(Seq::<char>::empty() + without(rest, ws) =~= without(rest, ws));
    } else {
        lemma_word_len(s);
        let n = word_len(s) as int;
        let word = s.take(n);
        let rest = s.skip(n);
        lemma_tokens_keep_content(rest);
        assert(word + rest =~= s);
        lemma_without_concat(word, rest, ws);
        assert forall|j: int| 0 <= j < word.len() implies !ws.has(#[trigger] word[j]) by {
            assert(word[j] == s[j]);
        }
        lemma_without_nothing(word, ws);
        let all = tokens(s);
        assert(all == seq![word] + tokens(rest));
        assert(all.first() == word);
        assert(all.drop_first() =~= tokens(rest));
        assert forall|i: int| 0 <= i < all.len() implies (#[trigger] all[i]).len() > 0 by {
            if i > 0 {
                assert(all[i] == tokens(rest)[i - 1]);
            }
        }
        assert forall|i: int, j: int| 0 <= i < all.len() && 0 <= j < all[i].len() implies !is_space(
            #[trigger] all[i][j],
        ) by {
            if i > 0 {
                assert(all[i] == tokens(rest)[i - 1]);
            } else {
                assert(all[0][j] == s[j]);
            }
        }
    }
}

/// Every character of a token is a character of the text.
pub proof fn lemma_token_chars_come_from_text(s: Seq<char>, i: int, j: int)
    requires
        0 <= i < tokens(s).len(),
        0 <= j < tokens(s)[i].len(),
    ensures
        exists|k: int| 0 <= k < s.len() && s[k] == tokens(s)[i][j],
    decreases s.len(),
{
    if s.len() == 0 {
    } else if is_space(s[0]) {
        let rest = s.drop_first();
        lemma_token_chars_come_from_text(rest, i, j);
        let k = choose|k: int| 0 <= k < rest.len() && rest[k] == tokens(rest)[i][j];
        assert(s[k + 1] == rest[k]);
    } else {
        lemma_word_len(s);
        let n = word_len(s) as int;
        let rest = s.skip(n);
        if i == 0 {
            assert(tokens(s)[0] == s.take(n));
            assert(s[j] == tokens(s)[0][j]);
        } else {
            assert(tokens(s)[i] == tokens(rest)[i - 1]);
            lemma_token_chars_come_from_text(rest, i - 1, j);
            let k = choose|k: int| 0 <= k < rest.len() && rest[k] == tokens(rest)[i - 1][j];
            assert(s[k + n] == rest[k]);
        }
    }
}

/// The characters of `s`, in order.
pub fn chars_of(s: &str) -> (r: Vec<char>)
    ensures
        r@ == s@,
{
    let mut out: Vec<char> = Vec::new();
    for c in it: s.chars()
        invariant
            out@ == it.seq().take(it.index() as int),
            it.seq() == s@,
    {
        out.push(c);
    }
    out
}

/// The string made of `v[from..to]`.
pub(crate) fn string_from(v: &Vec<char>, from: usize, to: usize) -> (r: String)
    requires
        from <= to <= v.len(),
    ensures
        r@ == v@.subrange(from as int, to as int),
{
    let mut out = String::new();
    let mut i: usize = from;
    while i < to
        invariant
            from <= i <= to <= v.len(),
            out@ == v@.subrange(from as int, i as int),
        decreases to - i,
    {
        out.push(v[i]);
        i += 1;
        assert(out@ =~= v@.subrange(from as int, i as int));
    }
    out
}

/// `a` followed by `b`.
pub fn concat_str(a: &str, b: &str) -> (r: String)
    ensures
        r@ == a@ + b@,
{
    let mut out = String::from_str(a);
    out.append(b);
    out
}

/// Whether two strings hold the same characters.
pub fn same_text(a: &str, b: &str) -> (r: bool)
    ensures
        r == (a@ == b@),
{
    let x = chars_of(a);
    let y = chars_of(b);
    if x.len() != y.len() {
        return false;
    }
    let mut i: usize = 0;
    while i < x.len()
        invariant
            i <= x.len() == y.len(),
            x@ == a@,
            y@ == b@,
            forall|j: int| 0 <= j < i ==> x@[j] == y@[j],
        decreases x.len() - i,
    {
        if x[i] != y[i] {
            return false;
        }
        i += 1;
    }
    assert(x@ =~= y@);
    true
}

/// Removes the longest prefix and the longest suffix made of `class`.
pub fn trim_class(s: &str, class: CharClass) -> (r: String)
    ensures
        r@ == trimmed_of(s@, class),
{
    let v = chars_of(s);
    let n = v.len();
    let mut start: usize = 0;
    while start < n && class.contains(v[start])
        invariant
            start <= n == v.len(),
            forall|j: int| 0 <= j < start ==> class.has(#[trigger] v@[j]),
        decreases n - start,
    {
        start += 1;
    }
    let mut end: usize = n;
    while end > start && class.contains(v[end - 1])
        invariant
            start <= end <= n == v.len(),
            forall|j: int| end <= j < n ==> class.has(#[trigger] v@[j]),
        decreases end,
    {
        end -= 1;
    }
    proof {
        lemma_leading_is(v@, class, start as int);
        let rest = v@.skip(start as int);
        assert forall|j: int| rest.len() - (n - end) <= j < rest.len() implies class.has(
            #[trigger] rest[j],
        ) by {
            assert(rest[j] == v@[j + start]);
        }
        if n - end < rest.len() {
            assert(rest[rest.len() - (n - end) - 1] == v@[end - 1]);
        }
        lemma_trailing_is(rest, class, n - end);
        assert(rest.take(rest.len() - (n - end)) =~= v@.subrange(start as int, end as int));
    }
    string_from(&v, start, end)
}

/// Removes every character of `class`.
pub fn remove_class(s: &str, class: CharClass) -> (r: String)
    ensures
        r@ == without(s@, class),
{
    let v = chars_of(s);
    let mut out = String::new();
    let mut i: usize = 0;
    while i < v.len()
        invariant
            i <= v.len(),
            out@ == without(v@.take(i as int), class),
        decreases v.len() - i,
    {
        proof {
            reveal(Seq::filter);
            assert(v@.take(i + 1).drop_last() =~= v@.take(i as int));
        }
        if !class.contains(v[i]) {
            out.push(v[i]);
        }
        i += 1;
    }
    assert(v@.take(v.len() as int) =~= v@);
    out
}

/// Splits on whitespace, keeping the non-empty pieces in order.
pub fn split_whitespace(s: &str) -> (r: Vec<String>)
    ensures
        r.deep_view() == tokens(s@),
{
    let v = chars_of(s);
    let n = v.len();
    let mut out: Vec<String> = Vec::new();
    let mut i: usize = 0;
    assert(v@.skip(0) =~= v@);
    assert(out.deep_view() =~= Seq::<Seq<char>>::empty());
    while i < n
        invariant
            i <= n == v.len(),
            tokens(v@) == out.deep_view() + tokens(v@.skip(i as int)),
        decreases n - i,
    {
        let ghost rest = v@.skip(i as int);
        if CharClass::Whitespace.contains(v[i]) {
            i += 1;
            assert(rest.drop_first() =~= v@.skip(i as int));
        } else {
            let start = i;
            while i < n && !CharClass::Whitespace.contains(v[i])
                invariant
                    start <= i <= n == v.len(),
                    forall|j: int| start <= j < i ==> !is_space(#[trigger] v@[j]),
                decreases n - i,
            {
                i += 1;
            }
            let word = string_from(&v, start, i);
            let ghost before = out.deep_view();
            out.push(word);
            proof {
                assert forall|j: int| 0 <= j < i - start implies !is_space(#[trigger] rest[j]) by {
                    assert(rest[j] == v@[start + j]);
                }
                lemma_word_len_is(rest, i - start);
                assert(rest.take(i - start) =~= v@.subrange(start as int, i as int));
                assert(rest.skip(i - start) =~= v@.skip(i as int));
                assert(out.deep_view() =~= before.push(word@));
                assert(before + (seq![word@] + tokens(v@.skip(i as int))) =~= before.push(word@)
                    + tokens(v@.skip(i as int)));
            }
        }
    }
    assert(tokens(v@.skip(n as int)) =~= Seq::<Seq<char>>::empty());
    assert(out.deep_view() + Seq::<Seq<char>>::empty() =~= out.deep_view());
    out
}

/// Removes surrounding whitespace.
pub fn trim(s: &str) -> (r: String)
    ensures
        r@ == trimmed(s@),
{
    trim_class(s, CharClass::Whitespace)
}


/// Appends copies of the strings of `src` to `dst`.
pub fn extend_with(dst: &mut Vec<String>, src: &Vec<String>)
    ensures
        final(dst).deep_view() == old(dst).deep_view() + src.deep_view(),
{
    let mut i: usize = 0;
    while i < src.len()
        invariant
            i <= src.len(),
            dst.deep_view() == old(dst).deep_view() + src.deep_view().take(i as int),
        decreases src.len() - i,
    {
        let ghost before = dst.deep_view();
        dst.push(src[i].clone());
        i += 1;
        assert(dst.deep_view() =~= before.push(src@[i - 1]@));
        assert(src.deep_view().take(i as int) =~= src.deep_view().take(i - 1).push(src@[i - 1]@));
    }
    assert(src.deep_view().take(src.len() as int) =~= src.deep_view());
}

/// A copy of `items`.
pub fn copy_strings(items: &Vec<String>) -> (r: Vec<String>)
    ensures
        r.deep_view() == items.deep_view(),
{
    let mut out: Vec<String> = Vec::new();
    assert(out.deep_view() =~= Seq::<Seq<char>>::empty());
    extend_with(&mut out, items);
    assert(out.deep_view() =~= items.deep_view());
    out
}

/// Whether `a` comes before `b` in the order of texts, or equals it. Texts
/// are compared character by character, by code point, and a text comes
/// before every text that it starts.
pub open spec fn precedes(a: Seq<char>, b: Seq<char>) -> bool
    decreases a.len(),
{
    if a.len() == 0 {
        true
    } else if b.len() == 0 {
        false
    } else if a[0] != b[0] {
        a[0] < b[0]
    } else {
        precedes(a.drop_first(), b.drop_first())
    }
}

/// Whether no text of `items` stands behind one that it precedes strictly.
pub open spec fn ascending(items: Seq<Seq<char>>) -> bool {
    forall|i: int, j: int| 0 <= i < j < items.len() ==> precedes(items[i], items[j])
}

/// Of two texts one precedes the other.
pub proof fn lemma_precedes_total(a: Seq<char>, b: Seq<char>)
    ensures
        precedes(a, b) || precedes(b, a),
    decreases a.len(),
{
    if a.len() > 0 && b.len() > 0 && a[0] == b[0] {
        lemma_precedes_total(a.drop_first(), b.drop_first());
    }
}

/// The order of texts is transitive.
pub proof fn lemma_precedes_transitive(a: Seq<char>, b: Seq<char>, c: Seq<char>)
    requires
        precedes(a, b),
        precedes(b, c),
    ensures
        precedes(a, c),
    decreases a.len(),
{
    if a.len() > 0 && b.len() > 0 && c.len() > 0 && a[0] == b[0] && b[0] == c[0] {
        lemma_precedes_transitive(a.drop_first(), b.drop_first(), c.drop_first());
    }
}

/// Whether `a` comes before `b` in the order of texts, or equals it.
pub fn text_precedes(a: &str, b: &str) -> (r: bool)
    ensures
        r == precedes(a@, b@),
{
    let x = chars_of(a);
    let y = chars_of(b);
    let mut i: usize = 0;
    assert(x@.skip(0) =~= x@);
    assert(y@.skip(0) =~= y@);
    while i < x.len() && i < y.len()
        invariant
            i <= x.len(),
            i <= y.len(),
            x@ == a@,
            y@ == b@,
            precedes(a@, b@) == precedes(x@.skip(i as int), y@.skip(i as int)),
        decreases x.len() - i,
    {
        let ghost p = x@.skip(i as int);
        let ghost q = y@.skip(i as int);
        assert(p[0] == x@[i as int] && q[0] == y@[i as int]);
        if x[i] != y[i] {
            return x[i] < y[i];
        }
        assert(p.drop_first() =~= x@.skip(i + 1));
        assert(q.drop_first() =~= y@.skip(i + 1));
        i += 1;
    }
    i == x.len()
}

/// The strings of `items` in ascending order, each as often as before.
pub fn sort_texts(items: &Vec<String>) -> (r: Vec<String>)
    ensures
        ascending(r.deep_view()),
        r.deep_view().to_multiset() == items.deep_view().to_multiset(),
{
    let mut out: Vec<String> = Vec::new();
    let mut i: usize = 0;
    assert(out.deep_view() =~= Seq::<Seq<char>>::empty());
    assert(items.deep_view().take(0) =~= Seq::<Seq<char>>::empty());
    while i < items.len()
        invariant
            i <= items.len(),
            ascending(out.deep_view()),
            out.deep_view().to_multiset() == items.deep_view().take(i as int).to_multiset(),
        decreases items.len() - i,
    {
        let item = items[i].clone();
        let mut k: usize = 0;
        while k < out.len() && text_precedes(out[k].as_str(), item.as_str())
            invariant
                k <= out.len(),
                forall|j: int| 0 <= j < k ==> precedes(#[trigger] out.deep_view()[j], item@),
            decreases out.len() - k,
        {
            k += 1;
        }
        let ghost before = out.deep_view();
        out.insert(k, item);
        proof {
            let after = out.deep_view();
            assert(after =~= before.insert(k as int, item@));
            vstd::seq_lib::to_multiset_insert(before, k as int, item@);
            let next = items.deep_view().take(i + 1);
            assert(next =~= items.deep_view().take(i as int).push(item@));
            vstd::seq_lib::to_multiset_build(items.deep_view().take(i as int), item@);
            if k < before.len() {
                lemma_precedes_total(before[k as int], item@);
            }
            assert forall|m: int, n: int| 0 <= m < n < after.len() implies precedes(
                after[m],
                after[n],
            ) by {
                if n < k {
                    assert(after[m] == before[m] && after[n] == before[n]);
                } else if n == k {
                    assert(after[m] == before[m]);
                } else if m == k {
                    assert(after[n] == before[n - 1]);
                    if n - 1 > k {
                        lemma_precedes_transitive(item@, before[k as int], before[n - 1]);
                    }
                } else if m < k {
                    assert(after[m] == before[m] && after[n] == before[n - 1]);
                } else {
                    assert(after[m] == before[m - 1] && after[n] == before[n - 1]);
                }
            }
        }
        i += 1;
    }
    assert(items.deep_view().take(items.len() as int) =~= items.deep_view());
    out
}

/// Whether `pat` occurs in `s` at position `i`.
pub open spec fn occurs_at(s: Seq<char>, pat: Seq<char>, i: int) -> bool {
    0 <= i && i + pat.len() <= s.len() && s.subrange(i, i + pat.len()) == pat
}

/// Whether `pat` occurs somewhere in `s`.
pub open spec fn has_infix(s: Seq<char>, pat: Seq<char>) -> bool {
    exists|i: int| occurs_at(s, pat, i)
}

/// Whether `s[at..]` starts with `pat`.
fn matches_at(s: &Vec<char>, pat: &Vec<char>, at: usize) -> (r: bool)
    requires
        at + pat.len() <= s.len(),
    ensures
        r == occurs_at(s@, pat@, at as int),
{
    let mut j: usize = 0;
    while j < pat.len()
        invariant
            j <= pat.len(),
            at + pat.len() <= s.len(),
            forall|k: int| 0 <= k < j ==> s@[at + k] == pat@[k],
        decreases pat.len() - j,
    {
        if s[at + j] != pat[j] {
            assert(s@.subrange(at as int, at + pat.len())[j as int] == s@[at + j]);
            return false;
        }
        j += 1;
    }
    assert(s@.subrange(at as int, at + pat.len()) =~= pat@);
    true
}

/// Whether `pat` occurs somewhere in `s`.
pub fn contains(s: &str, pat: &str) -> (r: bool)
    ensures
        r == has_infix(s@, pat@),
{
    let v = chars_of(s);
    let p = chars_of(pat);
    if p.len() > v.len() {
        return false;
    }
    let last: usize = v.len() - p.len();
    let mut i: usize = 0;
    loop
        invariant
            i <= last,
            last == v.len() - p.len(),
            v@ == s@,
            p@ == pat@,
            forall|k: int| 0 <= k < i ==> !occurs_at(s@, pat@, k),
        decreases last - i,
    {
        if matches_at(&v, &p, i) {
            return true;
        }
        if i == last {
            return false;
        }
        i += 1;
    }
}

/// Whether `s` ends with `pat`.
pub fn ends_with(s: &str, pat: &str) -> (r: bool)
    ensures
        r == pat@.is_suffix_of(s@),
{
    let v = chars_of(s);
    let p = chars_of(pat);
    if p.len() > v.len() {
        return false;
    }
    let at: usize = v.len() - p.len();
    let r = matches_at(&v, &p, at);
    assert(v@.subrange(at as int, at + p.len()) =~= v@.skip(v.len() - p.len()));
    r
}

/// The texts of `parts` with `sep` between neighbours.
pub open spec fn joined_with(parts: Seq<Seq<char>>, sep: Seq<char>) -> Seq<char>
    decreases parts.len(),
{
    if parts.len() == 0 {
        Seq::empty()
    } else if parts.len() == 1 {
        parts[0]
    } else {
        joined_with(parts.drop_last(), sep) + sep + parts.last()
    }
}

/// Concatenates `parts`, putting `sep` between neighbours.
pub fn join_with(parts: &Vec<String>, sep: &str) -> (r: String)
    ensures
        r@ == joined_with(parts.deep_view(), sep@),
{
    let mut out = String::new();
    let mut i: usize = 0;
    assert(parts.deep_view().take(0) =~= Seq::<Seq<char>>::empty());
    while i < parts.len()
        invariant
            i <= parts.len(),
            out@ == joined_with(parts.deep_view().take(i as int), sep@),
        decreases parts.len() - i,
    {
        proof {
            let next = parts.deep_view().take(i + 1);
            assert(next.drop_last() =~= parts.deep_view().take(i as int));
            assert(next.last() == parts@[i as int]@);
            if i == 0 {
                assert(Seq::<char>::empty() + parts@[0]@ =~= parts@[0]@);
            }
        }
        if i > 0 {
            out.append(sep);
        }
        out.append(parts[i].as_str());
        i += 1;
    }
    assert(parts.deep_view().take(parts.len() as int) =~= parts.deep_view());
    out
}


/// The character for the decimal digit `d`.
pub open spec fn digit(d: nat) -> char {
    (48 + d) as u8 as char
}

/// The decimal numeral of `n`, without leading zeros.
pub open spec fn decimal(n: nat) -> Seq<char>
    decreases n,
{
    if n < 10 {
        seq![digit(n)]
    } else {
        decimal(n / 10).push(digit(n % 10))
    }
}

/// The decimal numeral of `n`, with a minus sign if `n` is negative.
pub open spec fn signed_decimal(n: int) -> Seq<char> {
    if n < 0 {
        seq!['-'] + decimal((-n) as nat)
    } else {
        decimal(n as nat)
    }
}

/// Appends the decimal numeral of `n` to `out`.
pub fn push_decimal(out: &mut String, n: u64)
    ensures
        final(out)@ == old(out)@ + decimal(n as nat),
    decreases n,
{
    if n >= 10 {
        push_decimal(out, n / 10);
    }
    let d: u8 = (n % 10) as u8;
    let c: char = (48u8 + d) as char;
    out.push(c);
    proof {
        let n = n as nat;
        if n >= 10 {
            assert(old(out)@ + decimal(n / 10).push(digit(n % 10)) =~= (old(out)@ + decimal(
                n / 10,
            )).push(digit(n % 10)));
        } else {
            assert(old(out)@ + seq![digit(n)] =~= old(out)@.push(digit(n)));
        }
    }
}

/// The decimal numeral of `n`.
pub fn format_decimal(n: u64) -> (r: String)
    ensures
        r@ == decimal(n as nat),
{
    let mut out = String::new();
    push_decimal(&mut out, n);
    assert(Seq::<char>::empty() + decimal(n as nat) =~= decimal(n as nat));
    out
}

/// The decimal numeral of `n`, with a minus sign if `n` is negative.
pub fn format_signed(n: i32) -> (r: String)
    ensures
        r@ == signed_decimal(n as int),
{
    let mut out = String::new();
    if n < 0 {
        out.push('-');
        let magnitude: u64 = (-(n as i64)) as u64;
        push_decimal(&mut out, magnitude);
        assert(out@ =~= seq!['-'] + decimal((-n) as nat));
    } else {
        push_decimal(&mut out, n as u64);
        assert(Seq::<char>::empty() + decimal(n as nat) =~= decimal(n as nat));
    }
    out
}


/// Length of the part of `s` before the first `sep`; the whole length if
/// `sep` does not occur.
pub open spec fn first_len(s: Seq<char>, sep: char) -> nat
    decreases s.len(),
{
    if s.len() > 0 && s[0] != sep {
        1 + first_len(s.drop_first(), sep)
    } else {
        0
    }
}

/// `first_len` stays within `s`, covers no separator, and stops at one.
pub proof fn lemma_first_len(s: Seq<char>, sep: char)
    ensures
        first_len(s, sep) <= s.len(),
        forall|j: int| 0 <= j < first_len(s, sep) ==> #[trigger] s[j] != sep,
        first_len(s, sep) < s.len() ==> s[first_len(s, sep) as int] == sep,
    decreases s.len(),
{
    if s.len() > 0 && s[0] != sep {
        let t = s.drop_first();
        lemma_first_len(t, sep);
        assert forall|j: int| 0 <= j < first_len(s, sep) implies #[trigger] s[j] != sep by {
            if j > 0 {
                assert(s[j] == t[j - 1]);
            }
        }
        if first_len(s, sep) < s.len() {
            assert(s[first_len(s, sep) as int] == t[first_len(t, sep) as int]);
        }
    }
}

/// A separator-free run at the front that is followed by a separator, or by
/// the end of `s`, is the whole first part.
pub proof fn lemma_first_len_is(s: Seq<char>, sep: char, n: int)
    requires
        0 <= n <= s.len(),
        forall|j: int| 0 <= j < n ==> #[trigger] s[j] != sep,
        n < s.len() ==> s[n] == sep,
    ensures
        first_len(s, sep) == n,
    decreases n,
{
    if n > 0 {
        let t = s.drop_first();
        assert(s[0] != sep);
        assert forall|j: int| 0 <= j < n - 1 implies #[trigger] t[j] != sep by {
            assert(t[j] == s[j + 1]);
        }
        lemma_first_len_is(t, sep, n - 1);
    }
}

/// The parts of `s` between occurrences of `sep`, empty parts included. A
/// text without `sep` is one part.
pub open spec fn parts(s: Seq<char>, sep: char) -> Seq<Seq<char>>
    decreases s.len(),
{
    let n = first_len(s, sep) as int;
    if n >= s.len() {
        seq![s]
    } else {
        proof {
            lemma_first_len(s, sep);
        }
        seq![s.take(n)] + parts(s.skip(n + 1), sep)
    }
}

/// A text that starts with a part free of `sep`, followed by `sep`, splits
/// into that part and the parts of what follows.
pub proof fn lemma_parts_first(first: Seq<char>, sep: char, rest: Seq<char>)
    requires
        forall|j: int| 0 <= j < first.len() ==> #[trigger] first[j] != sep,
    ensures
        parts(first + seq![sep] + rest, sep) == seq![first] + parts(rest, sep),
{
    let s = first + seq![sep] + rest;
    let n = first.len() as int;
    assert forall|j: int| 0 <= j < n implies #[trigger] s[j] != sep by {
        assert(s[j] == first[j]);
    }
    assert(s[n] == sep);
    lemma_first_len_is(s, sep, n);
    assert(s.take(n) =~= first);
    assert(s.skip(n + 1) =~= rest);
}

/// Splits `s` at every `sep`, as [`parts`] defines it.
pub fn split_on(s: &str, sep: char) -> (r: Vec<String>)
    ensures
        r.deep_view() == parts(s@, sep),
{
    let v = chars_of(s);
    let n = v.len();
    let mut out: Vec<String> = Vec::new();
    let mut start: usize = 0;
    assert(v@.skip(0) =~= v@);
    assert(out.deep_view() =~= Seq::<Seq<char>>::empty());
    loop
        invariant
            start <= n == v.len(),
            v@ == s@,
            parts(v@, sep) == out.deep_view() + parts(v@.skip(start as int), sep),
        decreases n - start,
    {
        let ghost rest = v@.skip(start as int);
        let ghost before = out.deep_view();
        let mut end: usize = start;
        while end < n && v[end] != sep
            invariant
                start <= end <= n == v.len(),
                forall|j: int| start <= j < end ==> #[trigger] v@[j] != sep,
            decreases n - end,
        {
            end += 1;
        }
        let part = string_from(&v, start, end);
        out.push(part);
        proof {
            assert forall|j: int| 0 <= j < end - start implies #[trigger] rest[j] != sep by {
                assert(rest[j] == v@[start + j]);
            }
            lemma_first_len_is(rest, sep, end - start);
            assert(out.deep_view() =~= before.push(part@));
            assert(rest.take(end - start) =~= v@.subrange(start as int, end as int));
        }
        if end == n {
            proof {
                assert(rest.take(end - start) =~= rest);
                assert(before + seq![rest] =~= before.push(part@));
            }
            return out;
        }
        proof {
            assert(rest.skip(end - start + 1) =~= v@.skip(end + 1));
            assert(before + (seq![part@] + parts(v@.skip(end + 1), sep)) =~= before.push(part@)
                + parts(v@.skip(end + 1), sep));
        }
        start = end + 1;
    }
}

/// Whether `c` is an ASCII decimal digit.
pub open spec fn is_digit(c: char) -> bool {
    '0' <= c <= '9'
}

/// The number that the decimal digits of `s` stand for.
pub open spec fn digits_value(s: Seq<char>) -> nat
    decreases s.len(),
{
    if s.len() == 0 {
        0
    } else {
        digits_value(s.drop_last()) * 10 + (s.last() as u32 - '0' as u32) as nat
    }
}

/// The `u32` that `s` denotes: decimal digits, at least one, after an
/// optional `+`, with a value that fits. Anything else denotes no number.
pub open spec fn parsed_u32(s: Seq<char>) -> Option<u32> {
    let body = unsigned_part(s);
    if body.len() > 0 && all_digits(body) && digits_value(body) <= u32::MAX {
        Some(digits_value(body) as u32)
    } else {
        None
    }
}

/// `s` without the `+` that may stand in front of a number.
pub open spec fn unsigned_part(s: Seq<char>) -> Seq<char> {
    if s.len() > 0 && s[0] == '+' {
        s.drop_first()
    } else {
        s
    }
}

/// Whether `s` holds decimal digits only.
pub open spec fn all_digits(s: Seq<char>) -> bool {
    forall|j: int| 0 <= j < s.len() ==> is_digit(#[trigger] s[j])
}

/// The value of decimal digits never shrinks when digits are appended.
pub proof fn lemma_digits_value_grows(s: Seq<char>, n: int)
    requires
        0 <= n <= s.len(),
        forall|j: int| 0 <= j < s.len() ==> is_digit(#[trigger] s[j]),
    ensures
        digits_value(s.take(n)) <= digits_value(s),
    decreases s.len() - n,
{
    if n < s.len() {
        let t = s.drop_last();
        assert(is_digit(s[s.len() - 1]));
        assert forall|j: int| 0 <= j < t.len() implies is_digit(#[trigger] t[j]) by {
            assert(t[j] == s[j]);
        }
        lemma_digits_value_grows(t, n);
        assert(t.take(n) =~= s.take(n));
    } else {
        assert(s.take(n) =~= s);
    }
}

/// Reads a `u32`, as [`parsed_u32`] defines it.
pub fn parse_u32(s: &str) -> (r: Option<u32>)
    ensures
        r == parsed_u32(s@),
{
    let v = chars_of(s);
    let start: usize = if v.len() > 0 && v[0] == '+' {
        1
    } else {
        0
    };
    let ghost body = v@.skip(start as int);
    assert(start == 1 ==> body =~= v@.drop_first());
    assert(start == 0 ==> body =~= v@);
    if start == v.len() {
        return None;
    }
    let mut value: u32 = 0;
    let mut i: usize = start;
    assert(body.take(0) =~= Seq::<char>::empty());
    while i < v.len()
        invariant
            start <= i <= v.len(),
            v@ == s@,
            body == v@.skip(start as int),
            body == unsigned_part(s@),
            body.len() > 0,
            forall|j: int| 0 <= j < i - start ==> is_digit(#[trigger] body[j]),
            value == digits_value(body.take(i - start)),
        decreases v.len() - i,
    {
        let c = v[i];
        assert(body[i - start] == c);
        if c < '0' || c > '9' {
            assert(!is_digit(body[i - start]));
            return None;
        }
        let d: u32 = c as u32 - '0' as u32;
        proof {
            let next = body.take(i - start + 1);
            assert(next.drop_last() =~= body.take(i - start));
            assert(next.last() == c);
        }
        if value > (u32::MAX - d) / 10 {
            proof {
                let next = body.take(i - start + 1);
                assert(digits_value(next) == value * 10 + d);
                assert(value * 10 + d > u32::MAX);
                if all_digits(body) {
                    lemma_digits_value_grows(body, i - start + 1);
                }
            }
            return None;
        }
        value = value * 10 + d;
        i += 1;
    }
    assert(body.take(body.len() as int) =~= body);
    Some(value)
}

} // verus!
