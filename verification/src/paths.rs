//! Paths as text: components are separated by `/`.

use vstd::prelude::*;
use vstd::string::StringExecFns;
use crate::text::{chars_of, string_from};

verus! {

/// Length of the run of characters other than `/` at the end of `path`.
pub open spec fn last_segment_len(path: Seq<char>) -> nat
    decreases path.len(),
{
    if path.len() > 0 && path.last() != '/' {
        1 + last_segment_len(path.drop_last())
    } else {
        0
    }
}

/// The final component of `path`. Separators at the end and `.` components
/// are passed over; a path that ends in `..`, or that has no component left,
/// has no file name.
pub open spec fn file_name(path: Seq<char>) -> Option<Seq<char>>
    decreases path.len(),
{
    if path.len() == 0 {
        None
    } else if path.last() == '/' {
        file_name(path.drop_last())
    } else {
        let start = path.len() - last_segment_len(path);
        let segment = path.skip(start);
        if segment == seq!['.'] {
            proof {
                lemma_last_segment(path);
            }
            file_name(path.take(start))
        } else if segment == seq!['.', '.'] {
            None
        } else {
            Some(segment)
        }
    }
}

/// `dir` extended by `name`: an absolute `name` replaces `dir`, and a
/// separator is put in between unless `dir` is empty or ends in one.
pub open spec fn joined(dir: Seq<char>, name: Seq<char>) -> Seq<char> {
    if name.len() > 0 && name[0] == '/' {
        name
    } else if dir.len() == 0 || dir.last() == '/' {
        dir + name
    } else {
        dir + seq!['/'] + name
    }
}

/// The last segment lies within the path, holds no separator, and is
/// preceded by one unless it starts the path.
pub proof fn lemma_last_segment(path: Seq<char>)
    ensures
        last_segment_len(path) <= path.len(),
        path.len() > 0 && path.last() != '/' ==> last_segment_len(path) >= 1,
        forall|j: int|
            path.len() - last_segment_len(path) <= j < path.len() ==> #[trigger] path[j] != '/',
        last_segment_len(path) < path.len() ==> path[path.len() - last_segment_len(path) - 1]
            == '/',
    decreases path.len(),
{
    if path.len() > 0 && path.last() != '/' {
        let t = path.drop_last();
        lemma_last_segment(t);
        assert forall|j: int| path.len() - last_segment_len(path) <= j < path.len() implies
            #[trigger] path[j] != '/' by {
            if j < path.len() - 1 {
                assert(path[j] == t[j]);
            }
        }
        if last_segment_len(path) < path.len() {
            assert(path[path.len() - last_segment_len(path) - 1] == t[t.len() - last_segment_len(
                t,
            ) - 1]);
        }
    }
}

/// A separator-free run at the end that is preceded by a separator, or by
/// the start of the path, is the whole last segment.
pub proof fn lemma_last_segment_is(path: Seq<char>, n: int)
    requires
        0 <= n <= path.len(),
        forall|j: int| path.len() - n <= j < path.len() ==> #[trigger] path[j] != '/',
        n < path.len() ==> path[path.len() - n - 1] == '/',
    ensures
        last_segment_len(path) == n,
    decreases n,
{
    if n > 0 {
        let t = path.drop_last();
        assert(path[path.len() - 1] != '/');
        assert forall|j: int| t.len() - (n - 1) <= j < t.len() implies #[trigger] t[j] != '/' by {
            assert(t[j] == path[j]);
        }
        lemma_last_segment_is(t, n - 1);
    }
}

/// Separators at the end of a path do not change its file name.
pub proof fn lemma_file_name_skips_separators(path: Seq<char>, end: int)
    requires
        0 <= end <= path.len(),
        forall|j: int| end <= j < path.len() ==> #[trigger] path[j] == '/',
    ensures
        file_name(path) == file_name(path.take(end)),
    decreases path.len() - end,
{
    if end < path.len() {
        let t = path.drop_last();
        assert(path.last() == path[path.len() - 1]);
        assert forall|j: int| end <= j < t.len() implies #[trigger] t[j] == '/' by {
            assert(t[j] == path[j]);
        }
        lemma_file_name_skips_separators(t, end);
        assert(t.take(end) =~= path.take(end));
    } else {
        assert(path.take(end) =~= path);
    }
}

/// The final component of `path`, as [`file_name`] defines it.
pub fn file_name_of(path: &str) -> (r: Option<String>)
    ensures
        r.deep_view() == file_name(path@),
{
    let v = chars_of(path);
    let mut end: usize = v.len();
    assert(v@.take(end as int) =~= v@);
    loop
        invariant
            end <= v.len(),
            v@ == path@,
            file_name(path@) == file_name(v@.take(end as int)),
        decreases end,
    {
        let ghost entry = end;
        while end > 0 && v[end - 1] == '/'
            invariant
                end <= entry <= v.len(),
                forall|j: int| end <= j < entry ==> #[trigger] v@[j] == '/',
            decreases end,
        {
            end -= 1;
        }
        let ghost head = v@.take(end as int);
        proof {
            let whole = v@.take(entry as int);
            assert forall|j: int| end <= j < whole.len() implies #[trigger] whole[j] == '/' by {
                assert(whole[j] == v@[j]);
            }
            lemma_file_name_skips_separators(whole, end as int);
            assert(whole.take(end as int) =~= head);
        }
        if end == 0 {
            return None;
        }
        let mut start: usize = end;
        while start > 0 && v[start - 1] != '/'
            invariant
                start <= end <= v.len(),
                forall|j: int| start <= j < end ==> #[trigger] v@[j] != '/',
            decreases start,
        {
            start -= 1;
        }
        proof {
            assert forall|j: int| head.len() - (end - start) <= j < head.len() implies
                #[trigger] head[j] != '/' by {
                assert(head[j] == v@[j]);
            }
            if end - start < head.len() {
                assert(head[head.len() - (end - start) - 1] == v@[start - 1]);
            }
            lemma_last_segment_is(head, end - start);
            assert(head.last() == v@[end - 1]);
            assert(head.skip(start as int) =~= v@.subrange(start as int, end as int));
            assert(head.take(start as int) =~= v@.take(start as int));
        }
        let ghost segment = v@.subrange(start as int, end as int);
        if end - start == 1 && v[start] == '.' {
            assert(segment =~= seq!['.']);
            end = start;
        } else if end - start == 2 && v[start] == '.' && v[start + 1] == '.' {
            assert(segment =~= seq!['.', '.']);
            return None;
        } else {
            proof {
                if segment == seq!['.'] {
                    assert(segment.len() == 1 && segment[0] == '.');
                }
                if segment == seq!['.', '.'] {
                    assert(segment.len() == 2 && segment[0] == '.' && segment[1] == '.');
                }
            }
            return Some(string_from(&v, start, end));
        }
    }
}

/// `dir` extended by `name`, as [`joined`] defines it.
pub fn join(dir: &str, name: &str) -> (r: String)
    ensures
        r@ == joined(dir@, name@),
{
    let d = chars_of(dir);
    let n = chars_of(name);
    if n.len() > 0 && n[0] == '/' {
        return String::from_str(name);
    }
    let mut out = String::from_str(dir);
    if d.len() > 0 && d[d.len() - 1] != '/' {
        out.push('/');
        assert(out@ =~= dir@ + seq!['/']);
    }
    out.append(name);
    out
}

} // verus!
