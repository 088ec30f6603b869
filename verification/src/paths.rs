//! Paths as text: file names, extensions, and paths relative to a root.
//! A path is a sequence of characters whose components are separated by `/`.
use vstd::prelude::*;
use vstd::string::StringExecFns;

verus! {

/// Index just behind the last `c` in `s`, or 0 where `s` holds no `c`.
pub open spec fn after_last(s: Seq<char>, c: char) -> nat
    decreases s.len(),
{
    if s.len() == 0 {
        0
    } else if s.last() == c {
        s.len()
    } else {
        after_last(s.drop_last(), c)
    }
}

/// The last component of a path: what follows its last separator.
pub open spec fn file_name_of(path: Seq<char>) -> Seq<char> {
    path.skip(after_last(path, '/') as int)
}

/// The extension of a path: what follows the last dot of its file name, and
/// the empty text where the file name has no dot.
pub open spec fn extension_of(path: Seq<char>) -> Seq<char> {
    let name = file_name_of(path);
    let k = after_last(name, '.');
    if k == 0 {
        Seq::empty()
    } else {
        name.skip(k as int)
    }
}

/// Whether a name begins with a dot.
pub open spec fn starts_with_dot(name: Seq<char>) -> bool {
    name.len() > 0 && name[0] == '.'
}

/// `s` without the separators at its front.
pub open spec fn trim_separators(s: Seq<char>) -> Seq<char>
    decreases s.len(),
{
    if s.len() > 0 && s[0] == '/' {
        trim_separators(s.drop_first())
    } else {
        s
    }
}

/// Whether `path` lies at or below `root`: `root` is not empty, `path` begins
/// with it, and `root` ends there with a whole component.
pub open spec fn lies_under(path: Seq<char>, root: Seq<char>) -> bool {
    &&& 0 < root.len() <= path.len()
    &&& path.take(root.len() as int) == root
    &&& (root.last() == '/' || path.len() == root.len() || path[root.len() as int] == '/')
}

/// `path` relative to `root`: below the root, what follows the root and its
/// separators; anywhere else, the path as it is.
pub open spec fn relative_to(path: Seq<char>, root: Seq<char>) -> Seq<char> {
    if lies_under(path, root) {
        trim_separators(path.skip(root.len() as int))
    } else {
        path
    }
}

/// What `after_last` finds: 0 exactly where `c` does not occur; otherwise the
/// place behind an occurrence of `c` that no other follows.
pub proof fn lemma_after_last(s: Seq<char>, c: char)
    ensures
        after_last(s, c) <= s.len(),
        after_last(s, c) == 0 <==> !s.contains(c),
        after_last(s, c) > 0 ==> s[after_last(s, c) - 1] == c,
        forall|j: int| after_last(s, c) <= j < s.len() ==> s[j] != c,
    decreases s.len(),
{
    if s.len() > 0 {
        let t = s.drop_last();
        lemma_after_last(t, c);
        if s.last() == c {
            assert(s[s.len() - 1] == c);
        } else {
            if s.contains(c) {
                let i = choose|i: int| 0 <= i < s.len() && s[i] == c;
                assert(t[i] == c);
            }
            if t.contains(c) {
                let i = choose|i: int| 0 <= i < t.len() && t[i] == c;
                assert(s[i] == c);
            }
            assert forall|j: int| after_last(s, c) <= j < s.len() implies s[j] != c by {
                if j < t.len() {
                    assert(t[j] == s[j]);
                }
            }
        }
    }
}

/// Finds the place behind the last `c` in `s`, counted in characters.
pub fn find_after_last(s: &str, c: char) -> (k: usize)
    ensures
        k == after_last(s@, c),
{
    let n = s.unicode_len();
    let mut k: usize = 0;
    let mut i: usize = 0;
    for x in it: s.chars()
        invariant
            n == s@.len(),
            it.seq() == s@,
            i == it.index(),
            k <= i,
            k == after_last(s@.take(i as int), c),
    {
        proof {
            let t = s@.take(i + 1);
            assert(t.drop_last() == s@.take(i as int));
            assert(t.last() == x);
        }
        i += 1;
        if x == c {
            k = i;
        }
    }
    assert(s@.take(i as int) == s@);
    k
}

/// The extension of a path, without its dot.
pub fn file_extension(path: &str) -> (extension: String)
    ensures
        extension@ == extension_of(path@),
{
    let len = path.unicode_len();
    let start = find_after_last(path, '/');
    proof {
        lemma_after_last(path@, '/');
    }
    let name = path.substring_char(start, len);
    let dot = find_after_last(name, '.');
    proof {
        lemma_after_last(name@, '.');
    }
    if dot == 0 {
        String::new()
    } else {
        String::from_str(name.substring_char(dot, len - start))
    }
}

/// Tells whether a name begins with a dot.
pub fn has_leading_dot(name: &str) -> (dotted: bool)
    ensures
        dotted == starts_with_dot(name@),
{
    !name.is_empty() && name.get_char(0) == '.'
}

/// The path relative to the root.
pub fn relative_path(path: &str, root: &str) -> (relative: String)
    ensures
        relative@ == relative_to(path@, root@),
{
    let path_len = path.unicode_len();
    let root_len = root.unicode_len();
    if root_len == 0 || root_len > path_len {
        return String::from_str(path);
    }
    let head = String::from_str(path.substring_char(0, root_len));
    if head != String::from_str(root) {
        return String::from_str(path);
    }
    if !(root.get_char(root_len - 1) == '/' || path_len == root_len || path.get_char(root_len)
        == '/') {
        return String::from_str(path);
    }
    let mut k: usize = root_len;
    while k < path_len && path.get_char(k) == '/'
        invariant
            root_len <= k <= path_len,
            path_len == path@.len(),
            trim_separators(path@.skip(root_len as int)) == trim_separators(path@.skip(k as int)),
        decreases path_len - k,
    {
        assert(path@.skip(k as int).drop_first() == path@.skip(k + 1));
        k += 1;
    }
    String::from_str(path.substring_char(k, path_len))
}

} // verus!
