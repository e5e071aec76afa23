//! Joining a relative path onto a directory.

use vstd::prelude::*;
use vstd::string::StringExecFns;
use vstd::string::StrSliceExecFns;
use crate::strings::chars_of;

verus! {

/// The character that separates the parts of a path.
pub const SEPARATOR: char = '/';

/// The directory `cur` with `part` pushed onto it: a separator goes between
/// them unless `cur` is empty or already ends in one.
pub open spec fn pushed(cur: Seq<char>, part: Seq<char>) -> Seq<char> {
    if cur.len() > 0 && cur.last() != SEPARATOR {
        cur.push(SEPARATOR) + part
    } else {
        cur + part
    }
}

/// Where the first separator of `s` stands, or the length of `s` if it has none.
pub open spec fn first_separator(s: Seq<char>) -> int
    decreases s.len(),
{
    if s.len() == 0 || s[0] == SEPARATOR {
        0
    } else {
        1 + first_separator(s.skip(1))
    }
}

/// The path that results from pushing onto `cur`, one after the other, the
/// parts that the separators cut `path` into. An empty `path` is one empty part.
pub open spec fn joined(cur: Seq<char>, path: Seq<char>) -> Seq<char>
    decreases path.len(),
{
    let k = first_separator(path);
    if 0 <= k < path.len() {
        joined(pushed(cur, path.take(k)), path.skip(k + 1))
    } else {
        pushed(cur, path)
    }
}

/// `first_separator` finds a separator, or the end, with no separator before it.
pub proof fn lemma_first_separator(s: Seq<char>)
    ensures
        0 <= first_separator(s) <= s.len(),
        first_separator(s) < s.len() ==> s[first_separator(s)] == SEPARATOR,
        forall|j: int| 0 <= j < first_separator(s) ==> s[j] != SEPARATOR,
    decreases s.len(),
{
    if s.len() == 0 || s[0] == SEPARATOR {
    } else {
        lemma_first_separator(s.skip(1));
        assert forall|j: int| 0 <= j < first_separator(s) implies s[j] != SEPARATOR by {
            if j > 0 {
                assert(s.skip(1)[j - 1] == s[j]);
            }
        }
    }
}

/// A position with no separator before it, which holds one or is the end,
/// is where the first separator stands.
proof fn lemma_first_separator_is(s: Seq<char>, k: int)
    requires
        0 <= k <= s.len(),
        k < s.len() ==> s[k] == SEPARATOR,
        forall|j: int| 0 <= j < k ==> s[j] != SEPARATOR,
    ensures
        first_separator(s) == k,
{
    lemma_first_separator(s);
}

/// Pushes `part` onto `out`. `need_sep` says whether `out` is non-empty and
/// does not end in a separator; the answer says the same of the result.
fn push_part(out: String, need_sep: bool, part: &str) -> (res: (String, bool))
    requires
        need_sep == (out@.len() > 0 && out@.last() != SEPARATOR),
        forall|j: int| 0 <= j < part@.len() ==> part@[j] != SEPARATOR,
    ensures
        res.0@ == pushed(out@, part@),
        res.1 == (res.0@.len() > 0 && res.0@.last() != SEPARATOR),
{
    let ghost start = out@;
    let mut out = out;
    if need_sep {
        out.append("/");
        proof {
            reveal_strlit("/");
            assert(out@ =~= start.push(SEPARATOR));
        }
    }
    let ghost mid = out@;
    out.append(part);
    let nonempty = part.unicode_len() > 0;
    proof {
        if part@.len() > 0 {
            assert(out@.last() == part@.last());
        } else {
            assert(out@ =~= mid);
        }
    }
    (out, nonempty)
}

/// Joins `path`, whose parts are separated by `/`, onto `current_dir`.
/// Part after part is pushed onto the directory; an empty part, as a leading,
/// trailing or doubled separator gives, only makes sure that the path so far
/// ends in a separator.
pub fn get_path(current_dir: &str, path: &str) -> (full: String)
    ensures
        full@ == joined(current_dir@, path@),
{
    let chars = chars_of(path);
    let dir = chars_of(current_dir);
    let mut out = String::from_str(current_dir);
    let mut need_sep = dir.len() > 0 && dir[dir.len() - 1] != '/';
    let mut start: usize = 0;
    let mut i: usize = 0;
    proof {
        assert(path@.skip(0) =~= path@);
    }
    while i < chars.len()
        invariant
            chars@ == path@,
            start <= i <= chars.len(),
            need_sep == (out@.len() > 0 && out@.last() != SEPARATOR),
            forall|j: int| start <= j < i ==> path@[j] != SEPARATOR,
            joined(current_dir@, path@) == joined(out@, path@.skip(start as int)),
        decreases chars.len() - i,
    {
        if chars[i] == '/' {
            let part = path.substring_char(start, i);
            proof {
                let rest = path@.skip(start as int);
                assert forall|j: int| 0 <= j < i - start implies rest[j] != SEPARATOR by {
                    assert(rest[j] == path@[start + j]);
                }
                lemma_first_separator_is(rest, i - start);
                assert(rest.take(i - start) =~= part@);
                assert(rest.skip(i - start + 1) =~= path@.skip(i + 1));
            }
            let (next, sep) = push_part(out, need_sep, part);
            out = next;
            need_sep = sep;
            start = i + 1;
        }
        i += 1;
    }
    let part = path.substring_char(start, chars.len());
    proof {
        let rest = path@.skip(start as int);
        assert forall|j: int| 0 <= j < rest.len() implies rest[j] != SEPARATOR by {
            assert(rest[j] == path@[start + j]);
        }
        lemma_first_separator_is(rest, rest.len() as int);
        assert(rest =~= part@);
    }
    let (full, _) = push_part(out, need_sep, part);
    full
}

} // verus!
