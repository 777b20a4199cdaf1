//! Names of archive files, of archive entries and of the paths they are
//! extracted to.

use vstd::prelude::*;
use vstd::std_specs::iter::IteratorSpec;
use vstd::string::*;

verus! {

/// The suffix appended to a target path to form the archive's file name.
pub open spec fn archive_suffix() -> Seq<char> {
    seq!['.', 'z', 'i', 'p']
}

/// The file name of the archive written for `target`: the target followed by
/// the fixed suffix.
pub open spec fn archive_path_of(target: Seq<char>) -> Seq<char> {
    target + archive_suffix()
}

/// Whether an entry of this name stands for a directory: the name ends with
/// the path separator.
pub open spec fn names_directory(name: Seq<char>) -> bool {
    name.len() > 0 && name.last() == '/'
}

/// The name under which a directory is entered into an archive: the given
/// name, followed by the separator unless it already ends with it.
pub open spec fn directory_marker(name: Seq<char>) -> Seq<char> {
    if names_directory(name) {
        name
    } else {
        name.push('/')
    }
}

/// Forms the archive's file name from the target path.
pub fn archive_path(target: &str) -> (r: String)
    ensures
        r@ == archive_path_of(target@),
{
    proof {
        reveal_strlit(".zip");
    }
    let r = String::from_str(target).concat(".zip");
    assert(".zip"@ =~= archive_suffix());
    r
}

/// Tells whether an entry name stands for a directory.
pub fn is_directory_name(name: &str) -> (r: bool)
    ensures
        r == names_directory(name@),
{
    let n = name.unicode_len();
    n > 0 && name.get_char(n - 1) == '/'
}

/// The path an entry is extracted to: its name under the target root, with
/// one separator between them unless the root is empty or brings its own.
pub open spec fn entry_path_of(root: Seq<char>, name: Seq<char>) -> Seq<char> {
    if root.len() == 0 {
        name
    } else if root.last() == '/' {
        root + name
    } else {
        root.push('/') + name
    }
}

/// Whether `i` is the place of the last separator in `path`.
pub open spec fn is_last_separator(path: Seq<char>, i: int) -> bool {
    &&& 0 <= i < path.len()
    &&& path[i] == '/'
    &&& forall|j: int| i < j < path.len() ==> path[j] != '/'
}

/// The directory a path lies in: what is left of the path when it is cut
/// back from its end up to and including a separator. A path without a
/// separator lies in no directory that would have to be made.
pub open spec fn parent_path_of(path: Seq<char>) -> Option<Seq<char>>
    decreases path.len(),
{
    if path.len() == 0 {
        None
    } else if path.last() == '/' {
        Some(path.drop_last())
    } else {
        parent_path_of(path.drop_last())
    }
}

/// The parent of a path is what stands before its last separator, and a path
/// has a parent exactly if it holds a separator.
pub proof fn lemma_parent_path_cuts_at_last_separator(path: Seq<char>)
    ensures
        forall|i: int| is_last_separator(path, i) ==> parent_path_of(path) == Some(path.take(i)),
        (forall|j: int| 0 <= j < path.len() ==> path[j] != '/') ==> parent_path_of(path) is None,
    decreases path.len(),
{
    if path.len() > 0 && path.last() != '/' {
        let shorter = path.drop_last();
        lemma_parent_path_cuts_at_last_separator(shorter);
        assert forall|i: int| is_last_separator(path, i) implies parent_path_of(path) == Some(
            path.take(i),
        ) by {
            assert(is_last_separator(shorter, i));
            assert(shorter.take(i) =~= path.take(i));
        }
    } else if path.len() > 0 {
        assert forall|i: int| is_last_separator(path, i) implies parent_path_of(path) == Some(
            path.take(i),
        ) by {
            assert(i == path.len() - 1);
            assert(path.drop_last() =~= path.take(i));
        }
    }
}

/// Forms the name under which a directory is entered into an archive.
pub fn directory_entry_name(name: &str) -> (r: String)
    ensures
        r@ == directory_marker(name@),
        names_directory(r@),
{
    if is_directory_name(name) {
        String::from_str(name)
    } else {
        proof {
            reveal_strlit("/");
        }
        let r = String::from_str(name).concat("/");
        assert(r@ =~= name@.push('/'));
        r
    }
}

/// Joins an entry name to the target root.
pub fn entry_path(root: &str, name: &str) -> (r: String)
    ensures
        r@ == entry_path_of(root@, name@),
{
    let n = root.unicode_len();
    if n == 0 {
        String::from_str(name)
    } else if root.get_char(n - 1) == '/' {
        String::from_str(root).concat(name)
    } else {
        proof {
            reveal_strlit("/");
        }
        let r = String::from_str(root).concat("/").concat(name);
        assert(r@ =~= root@.push('/') + name@);
        r
    }
}

/// Finds the directory a path lies in.
pub fn parent_path(path: &str) -> (r: Option<String>)
    ensures
        r is Some <==> parent_path_of(path@) is Some,
        r matches Some(p) ==> parent_path_of(path@) == Some(p@),
{
    broadcast use vstd::string::group_string_axioms;

    let n = path.unicode_len();
    let mut chars = path.chars();
    let mut last: Option<usize> = None;
    let mut i: usize = 0;
    loop
        invariant
            n == path@.len(),
            i <= n,
            chars.remaining() == path@.skip(i as int),
            chars.obeys_prophetic_iter_laws(),
            match last {
                Some(k) => k < i && path@[k as int] == '/' && forall|j: int|
                    k < j < i ==> path@[j] != '/',
                None => forall|j: int| 0 <= j < i ==> path@[j] != '/',
            },
        ensures
            i == n,
            match last {
                Some(k) => is_last_separator(path@, k as int),
                None => forall|j: int| 0 <= j < n ==> path@[j] != '/',
            },
        decreases n - i,
    {
        match chars.next() {
            Some(c) => {
                assert(i < n);
                assert(c == path@[i as int]);
                if c == '/' {
                    last = Some(i);
                }
                assert(path@.skip(i as int).drop_first() =~= path@.skip(i + 1));
                i += 1;
            },
            None => {
                break ;
            },
        }
    }
    proof {
        lemma_parent_path_cuts_at_last_separator(path@);
    }
    match last {
        Some(k) => {
            let p = String::from_str(path.substring_char(0, k));
            assert(path@.subrange(0, k as int) =~= path@.take(k as int));
            Some(p)
        },
        None => None,
    }
}

/// A sequence without the separators it begins with.
pub open spec fn without_leading(s: Seq<char>, separator: char) -> Seq<char>
    decreases s.len(),
{
    if s.len() > 0 && s[0] == separator {
        without_leading(s.drop_first(), separator)
    } else {
        s
    }
}

/// Whether `path` lies under `root`: it begins with the root, and the root
/// ends where a component of the path ends.
pub open spec fn lies_under(root: Seq<char>, path: Seq<char>, separator: char) -> bool {
    &&& root.is_prefix_of(path)
    &&& (root.len() == 0 || root.last() == separator || path.len() == root.len()
        || path[root.len() as int] == separator)
}

/// The name of an enumerated path relative to the source root: the path
/// without the root and without the separators that follow it. A path that
/// does not lie under the root has none.
pub open spec fn relative_name_of(root: Seq<char>, path: Seq<char>, separator: char) -> Option<
    Seq<char>,
> {
    if lies_under(root, path, separator) {
        Some(without_leading(path.skip(root.len() as int), separator))
    } else {
        None
    }
}

/// Strips the source root from an enumerated path. The separator is the one
/// the enumeration joins paths with.
pub fn relative_name(root: &str, path: &str, separator: char) -> (r: Option<String>)
    ensures
        r is Some <==> relative_name_of(root@, path@, separator) is Some,
        r matches Some(name) ==> relative_name_of(root@, path@, separator) == Some(name@),
{
    broadcast use vstd::string::group_string_axioms;

    let n_root = root.unicode_len();
    let n_path = path.unicode_len();
    if n_root > n_path {
        return None;
    }
    let mut of_root = root.chars();
    let mut of_path = path.chars();
    let mut i: usize = 0;
    let mut ends_with_separator = false;
    while i < n_root
        invariant
            n_root == root@.len(),
            n_path == path@.len(),
            n_root <= n_path,
            i <= n_root,
            of_root.remaining() == root@.skip(i as int),
            of_path.remaining() == path@.skip(i as int),
            of_root.obeys_prophetic_iter_laws(),
            of_path.obeys_prophetic_iter_laws(),
            forall|j: int| 0 <= j < i ==> root@[j] == path@[j],
            ends_with_separator == (i > 0 && root@[i - 1] == separator),
        decreases n_root - i,
    {
        let a = of_root.next();
        let b = of_path.next();
        assert(a == Some(root@[i as int]));
        assert(b == Some(path@[i as int]));
        assert(root@.skip(i as int).drop_first() =~= root@.skip(i + 1));
        assert(path@.skip(i as int).drop_first() =~= path@.skip(i + 1));
        match (a, b) {
            (Some(x), Some(y)) => {
                if x != y {
                    return None;
                }
                ends_with_separator = x == separator;
            },
            _ => {
                return None;
            },
        }
        i += 1;
    }
    assert(root@.is_prefix_of(path@)) by {
        assert(root@ =~= path@.subrange(0, n_root as int));
    }
    let mut start: usize = n_root;
    let mut first = true;
    loop
        invariant_except_break
            of_path.remaining() == path@.skip(start as int),
            of_path.obeys_prophetic_iter_laws(),
        invariant
            n_root == root@.len(),
            n_path == path@.len(),
            n_root <= start <= n_path,
            root@.is_prefix_of(path@),
            ends_with_separator == (n_root > 0 && root@.last() == separator),
            first == (start == n_root),
            !first ==> lies_under(root@, path@, separator),
            without_leading(path@.skip(n_root as int), separator) == without_leading(
                path@.skip(start as int),
                separator,
            ),
        ensures
            n_root <= start <= n_path,
            lies_under(root@, path@, separator),
            without_leading(path@.skip(n_root as int), separator) == path@.skip(start as int),
        decreases n_path - start,
    {
        match of_path.next() {
            Some(c) => {
                assert(c == path@[start as int]);
                assert(path@.skip(start as int)[0] == c);
                assert(path@.skip(start as int).drop_first() =~= path@.skip(start + 1));
                if c != separator {
                    if first && n_root > 0 && !ends_with_separator {
                        return None;
                    }
                    break ;
                }
                first = false;
                start += 1;
            },
            None => {
                assert(start == n_path);
                break ;
            },
        }
    }
    let name = String::from_str(path.substring_char(start, n_path));
    assert(path@.subrange(start as int, n_path as int) =~= path@.skip(start as int));
    Some(name)
}

} // verus!
