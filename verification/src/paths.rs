//! A model of filesystem paths as strings.
//!
//! The pipeline treats a path as a plain string of characters: directories
//! are separated by `'/'`, the file name is everything after the last
//! separator, and the extension is everything after the last dot of the
//! file name.  All path arithmetic of the workspace is specified here.

use vstd::prelude::*;
use vstd::string::*;

verus! {

/// The directory and the name joined with a single separator.
pub open spec fn joined(dir: Seq<char>, name: Seq<char>) -> Seq<char> {
    dir + seq!['/'] + name
}

/// Joins a directory path and a relative name.
pub fn join_path(dir: &str, name: &str) -> (r: String)
    ensures
        r@ == joined(dir@, name@),
{
    let mut r = dir.to_owned();
    r.append("/");
    r.append(name);
    proof {
        reveal_strlit("/");
        assert(dir@ + "/"@ + name@ =~= joined(dir@, name@));
    }
    r
}

/// The index where the file name starts: right after the last separator,
/// or zero when the path holds no separator.
pub open spec fn name_start(s: Seq<char>) -> int
    decreases s.len(),
{
    if s.len() == 0 {
        0
    } else if s.last() == '/' {
        s.len() as int
    } else {
        name_start(s.drop_last())
    }
}

pub proof fn lemma_name_start_bounds(s: Seq<char>)
    ensures
        0 <= name_start(s) <= s.len(),
    decreases s.len(),
{
    if s.len() > 0 && s.last() != '/' {
        lemma_name_start_bounds(s.drop_last());
    }
}

/// Pins `name_start` down: the name starts at `k` exactly when no
/// separator follows position `k` and a separator stands right before it
/// (or the path starts there).
proof fn lemma_name_start_at(s: Seq<char>, k: int)
    requires
        0 <= k <= s.len(),
        forall|j: int| k <= j < s.len() ==> s[j] != '/',
        k > 0 ==> s[k - 1] == '/',
    ensures
        name_start(s) == k,
    decreases s.len() - k,
{
    if k == s.len() {
        if s.len() > 0 {
            assert(s.last() == '/');
        }
    } else {
        assert(s.last() != '/');
        lemma_name_start_at(s.drop_last(), k);
    }
}

/// Finds where the file name starts in the path.
pub fn find_name_start(s: &str) -> (r: usize)
    ensures
        r == name_start(s@),
{
    let len = s.unicode_len();
    let mut i = len;
    while i > 0
        invariant
            i <= len,
            len == s@.len(),
            forall|j: int| i <= j < s@.len() ==> s@[j] != '/',
        decreases i,
    {
        if s.get_char(i - 1) == '/' {
            proof {
                lemma_name_start_at(s@, i as int);
            }
            return i;
        }
        i -= 1;
    }
    proof {
        lemma_name_start_at(s@, 0);
    }
    0
}

/// The position of the first dot in the name, or its length when the name
/// holds none.
pub open spec fn first_dot(name: Seq<char>) -> int
    decreases name.len(),
{
    if name.len() == 0 {
        0
    } else if name[0] == '.' {
        0
    } else {
        1 + first_dot(name.drop_first())
    }
}

pub proof fn lemma_first_dot_bounds(name: Seq<char>)
    ensures
        0 <= first_dot(name) <= name.len(),
        forall|j: int| 0 <= j < first_dot(name) ==> name[j] != '.',
    decreases name.len(),
{
    if name.len() > 0 && name[0] != '.' {
        lemma_first_dot_bounds(name.drop_first());
        assert forall|j: int| 0 <= j < first_dot(name) implies name[j] != '.' by {
            if j > 0 {
                assert(name[j] == name.drop_first()[j - 1]);
            }
        }
    }
}

proof fn lemma_first_dot_at(name: Seq<char>, k: int)
    requires
        0 <= k <= name.len(),
        forall|j: int| 0 <= j < k ==> name[j] != '.',
        k < name.len() ==> name[k] == '.',
    ensures
        first_dot(name) == k,
    decreases k,
{
    if name.len() == 0 {
    } else if k == 0 {
    } else {
        lemma_first_dot_at(name.drop_first(), k - 1);
    }
}

/// Finds the first dot of the string, or its length when it holds none.
pub fn find_first_dot(s: &str) -> (r: usize)
    ensures
        r == first_dot(s@),
{
    let len = s.unicode_len();
    let mut i: usize = 0;
    while i < len
        invariant
            i <= len,
            len == s@.len(),
            forall|j: int| 0 <= j < i ==> s@[j] != '.',
        decreases len - i,
    {
        if s.get_char(i) == '.' {
            proof {
                lemma_first_dot_at(s@, i as int);
            }
            return i;
        }
        i += 1;
    }
    proof {
        lemma_first_dot_at(s@, len as int);
    }
    len
}

/// The position right after the last dot of the name, or zero when the
/// name holds none.
pub open spec fn after_last_dot(name: Seq<char>) -> int
    decreases name.len(),
{
    if name.len() == 0 {
        0
    } else if name.last() == '.' {
        name.len() as int
    } else {
        after_last_dot(name.drop_last())
    }
}

pub proof fn lemma_after_last_dot_bounds(name: Seq<char>)
    ensures
        0 <= after_last_dot(name) <= name.len(),
    decreases name.len(),
{
    if name.len() > 0 && name.last() != '.' {
        lemma_after_last_dot_bounds(name.drop_last());
    }
}

proof fn lemma_after_last_dot_at(name: Seq<char>, k: int)
    requires
        0 <= k <= name.len(),
        forall|j: int| k <= j < name.len() ==> name[j] != '.',
        k > 0 ==> name[k - 1] == '.',
    ensures
        after_last_dot(name) == k,
    decreases name.len() - k,
{
    if k == name.len() {
    } else {
        assert(name.last() != '.');
        lemma_after_last_dot_at(name.drop_last(), k);
    }
}

/// Finds the position right after the last dot, or zero.
pub fn find_after_last_dot(s: &str) -> (r: usize)
    ensures
        r == after_last_dot(s@),
{
    let len = s.unicode_len();
    let mut i = len;
    while i > 0
        invariant
            i <= len,
            len == s@.len(),
            forall|j: int| i <= j < s@.len() ==> s@[j] != '.',
        decreases i,
    {
        if s.get_char(i - 1) == '.' {
            proof {
                lemma_after_last_dot_at(s@, i as int);
            }
            return i;
        }
        i -= 1;
    }
    proof {
        lemma_after_last_dot_at(s@, 0);
    }
    0
}

/// The file name of the path: everything after the last separator.
pub open spec fn file_name_of(s: Seq<char>) -> Seq<char> {
    s.subrange(name_start(s), s.len() as int)
}

/// The extension of the path: the part of the file name after its last
/// dot.  A name without a dot has no
/// extension, and neither has a name whose only dot is its first
/// character (a hidden file).
pub open spec fn extension_of(s: Seq<char>) -> Option<Seq<char>> {
    let name = file_name_of(s);
    let k = after_last_dot(name);
    if k <= 1 {
        None
    } else {
        Some(name.subrange(k, name.len() as int))
    }
}

/// The path with its extension set to `e`: everything after the last dot
/// of the file name is replaced, and a name without an extension (none of
/// its dots counting, or only a leading hidden-file dot) gains a dot and
/// the extension.  The extension is taken as given: an empty one leaves a
/// bare trailing dot.
pub open spec fn with_extension(p: Seq<char>, e: Seq<char>) -> Seq<char> {
    let name = file_name_of(p);
    let k = after_last_dot(name);
    if k <= 1 {
        p + seq!['.'] + e
    } else {
        p.subrange(0, name_start(p) + k) + e
    }
}

/// On a path whose file name holds no dot, setting the extension just
/// appends it after a dot.
pub proof fn lemma_with_extension_dotless(p: Seq<char>, e: Seq<char>)
    requires
        forall|j: int| 0 <= j < p.len() ==> p[j] != '.',
    ensures
        with_extension(p, e) == p + seq!['.'] + e,
{
    let name = file_name_of(p);
    lemma_name_start_bounds(p);
    assert forall|j: int| 0 <= j < name.len() implies name[j] != '.' by {
        assert(name[j] == p[name_start(p) + j]);
    }
    lemma_after_last_dot_at(name, 0);
}

/// The extension of the path, or `None` when it has none.
pub fn extension(s: &str) -> (r: Option<String>)
    ensures
        r is Some <==> extension_of(s@) is Some,
        r is Some ==> r->0@ == extension_of(s@)->0,
{
    let len = s.unicode_len();
    let start = find_name_start(s);
    proof {
        lemma_name_start_bounds(s@);
    }
    let name = s.substring_char(start, len);
    let k = find_after_last_dot(name);
    proof {
        lemma_after_last_dot_bounds(name@);
    }
    if k <= 1 {
        None
    } else {
        let name_len = name.unicode_len();
        Some(name.substring_char(k, name_len).to_owned())
    }
}

} // verus!
