//! Paths as the window reads them: the name a file goes by, its extension, and where a path
//! lies inside another.

use vstd::prelude::*;

use crate::text::chars_of;

verus! {

/// Where the last `/` before `j` stands, or -1 when there is none.
pub open spec fn last_slash_before(s: Seq<char>, j: int) -> int
    decreases j,
{
    if j <= 0 || j > s.len() {
        -1
    } else if s[j - 1] == '/' {
        j - 1
    } else {
        last_slash_before(s, j - 1)
    }
}

/// Where, among the first `j` characters of a path, its final component stands - as
/// `Path::file_name` finds it: separators and `.` components at the end are passed over, and
/// a path ending in `..`, or with no component at all, has no file name.
pub open spec fn file_name_in(s: Seq<char>, j: int) -> Option<(int, int)>
    decreases j,
{
    if j < 0 || j > s.len() {
        None
    } else {
        let k = last_slash_before(s, j);
        let piece = s.subrange(k + 1, j);
        if piece.len() == 0 || piece == "."@ {
            if k >= 0 && k < j {
                file_name_in(s, k)
            } else {
                None
            }
        } else if piece == ".."@ {
            None
        } else {
            Some((k + 1, j))
        }
    }
}

/// The final component of a path, if it has one, as `Path::file_name` answers it.
pub open spec fn file_name_spec(path: Seq<char>) -> Option<Seq<char>> {
    match file_name_in(path, path.len() as int) {
        Some((a, b)) => Some(path.subrange(a, b)),
        None => None,
    }
}

/// Where the last `.` in a name stands, or -1 when there is none.
pub open spec fn last_dot(name: Seq<char>, j: int) -> int
    decreases j,
{
    if j <= 0 || j > name.len() {
        -1
    } else if name[j - 1] == '.' {
        j - 1
    } else {
        last_dot(name, j - 1)
    }
}

/// A path's extension, as `Path::extension` answers it: what follows the last `.` of the file
/// name, unless that dot is the name's first character or there is no dot at all.
pub open spec fn extension_spec(path: Seq<char>) -> Option<Seq<char>> {
    match file_name_spec(path) {
        None => None,
        Some(name) => {
            let d = last_dot(name, name.len() as int);
            if d <= 0 {
                None
            } else {
                Some(name.skip(d + 1))
            }
        },
    }
}

/// What follows a path's last `/`, or the whole of a path with none - the first thing
/// `str::rsplit('/')` hands back.
pub open spec fn after_last_slash(path: Seq<char>) -> Seq<char> {
    path.skip(last_slash_before(path, path.len() as int) + 1)
}

proof fn lemma_last_slash_bound(s: Seq<char>, j: int)
    ensures
        -1 <= last_slash_before(s, j) < (if j > 0 { j } else { 0 }),
        last_slash_before(s, j) >= 0 ==> s[last_slash_before(s, j)] == '/',
    decreases j,
{
    if j > 0 && j <= s.len() && s[j - 1] != '/' {
        lemma_last_slash_bound(s, j - 1);
    }
}

proof fn lemma_last_dot_bound(s: Seq<char>, j: int)
    ensures
        -1 <= last_dot(s, j) < (if j > 0 { j } else { 0 }),
    decreases j,
{
    if j > 0 && j <= s.len() && s[j - 1] != '.' {
        lemma_last_dot_bound(s, j - 1);
    }
}

fn find_last_slash(s: &Vec<char>, j: usize) -> (k: Option<usize>)
    requires
        j <= s.len(),
    ensures
        match k {
            Some(k) => last_slash_before(s@, j as int) == k as int,
            None => last_slash_before(s@, j as int) == -1,
        },
{
    let mut i: usize = j;
    while i > 0
        invariant
            i <= j <= s.len(),
            last_slash_before(s@, j as int) == last_slash_before(s@, i as int),
        decreases i,
    {
        if s[i - 1] == '/' {
            return Some(i - 1);
        }
        i = i - 1;
    }
    None
}

fn piece_is(s: &Vec<char>, a: usize, b: usize, word: &str) -> (yes: bool)
    requires
        a <= b <= s.len(),
    ensures
        yes == (s@.subrange(a as int, b as int) == word@),
{
    let w = chars_of(word);
    if b - a != w.len() {
        return false;
    }
    let mut k: usize = 0;
    while k < w.len()
        invariant
            k <= w.len(),
            b - a == w.len(),
            a <= b <= s.len(),
            w@ == word@,
            forall|m: int| 0 <= m < k ==> s@[a + m] == w@[m],
        decreases w.len() - k,
    {
        if s[a + k] != w[k] {
            assert(s@.subrange(a as int, b as int)[k as int] != w@[k as int]);
            return false;
        }
        k = k + 1;
    }
    assert(s@.subrange(a as int, b as int) =~= w@);
    true
}

/// Where a path's file name stands in it, if it has one.
pub fn file_name_range(path: &Vec<char>) -> (range: Option<(usize, usize)>)
    ensures
        match range {
            Some((a, b)) => a <= b <= path.len() && file_name_in(path@, path.len() as int) == Some(
                (a as int, b as int),
            ),
            None => file_name_in(path@, path.len() as int) is None,
        },
{
    let mut j: usize = path.len();
    loop
        invariant
            j <= path.len(),
            file_name_in(path@, path.len() as int) == file_name_in(path@, j as int),
        decreases j,
    {
        let k = find_last_slash(path, j);
        proof {
            lemma_last_slash_bound(path@, j as int);
        }
        let start = match k {
            Some(k) => k + 1,
            None => 0,
        };
        if start == j || piece_is(path, start, j, ".") {
            match k {
                Some(k) => {
                    j = k;
                },
                None => {
                    return None;
                },
            }
        } else if piece_is(path, start, j, "..") {
            return None;
        } else {
            return Some((start, j));
        }
    }
}

fn find_last_dot(s: &Vec<char>, a: usize, b: usize) -> (d: Option<usize>)
    requires
        a <= b <= s.len(),
    ensures
        match d {
            Some(d) => last_dot(s@.subrange(a as int, b as int), (b - a) as int) == d as int,
            None => last_dot(s@.subrange(a as int, b as int), (b - a) as int) == -1,
        },
{
    let ghost name = s@.subrange(a as int, b as int);
    let mut i: usize = b - a;
    while i > 0
        invariant
            i <= b - a,
            a <= b <= s.len(),
            name == s@.subrange(a as int, b as int),
            last_dot(name, (b - a) as int) == last_dot(name, i as int),
        decreases i,
    {
        assert(name[i - 1] == s@[a + i - 1]);
        if s[a + i - 1] == '.' {
            return Some(i - 1);
        }
        i = i - 1;
    }
    None
}

/// A path's extension, as `Path::extension` answers it.
pub fn extension(path: &str) -> (ext: Option<String>)
    ensures
        match ext {
            Some(e) => extension_spec(path@) == Some(e@),
            None => extension_spec(path@) is None,
        },
{
    let chars = chars_of(path);
    let (a, b) = match file_name_range(&chars) {
        None => {
            return None;
        },
        Some(range) => range,
    };
    let ghost name = path@.subrange(a as int, b as int);
    match find_last_dot(&chars, a, b) {
        None => None,
        Some(d) => {
            if d == 0 {
                return None;
            }
            proof {
                lemma_last_dot_bound(name, name.len() as int);
            }
            let e = path.substring_char(a + d + 1, b);
            assert(e@ =~= name.skip(d + 1));
            Some(String::from_str(e))
        },
    }
}

/// What follows a path's last `/`: the file's own name, the way a row offers it.
pub fn file_name_of(file_path: &str) -> (name: &str)
    ensures
        name@ == after_last_slash(file_path@),
{
    let chars = chars_of(file_path);
    let n = chars.len();
    proof {
        lemma_last_slash_bound(file_path@, n as int);
    }
    let start = match find_last_slash(&chars, n) {
        Some(k) => k + 1,
        None => 0,
    };
    let name = file_path.substring_char(start, n);
    assert(name@ =~= after_last_slash(file_path@));
    name
}

/// `std::path::MAIN_SEPARATOR`, the separator of path components on the platform the window
/// runs on. Trusted to be `/` or a backslash, as std documents it (`/` on Unix, a backslash on
/// Windows); which of the two is the platform's, and is left unsaid here.
#[verifier::external_body]
pub(crate) fn main_separator() -> (separator: char)
    ensures
        separator == '/' || separator == '\\',
{
    std::path::MAIN_SEPARATOR
}

/// Where a file lies inside a folder, both named by canonical paths - absolute, with no `.` or
/// `..` in them, no doubled separators and no separator at the end but the root's own - on a
/// platform whose paths are split at `separator`: what follows the folder's path and the
/// separator after it. The folder itself lies inside itself at the empty path; a path the
/// folder's does not lead to lies nowhere in it. For such paths, split at the platform's own
/// separator, this is what `Path::strip_prefix` answers.
pub open spec fn inside_spec(root: Seq<char>, picked: Seq<char>, separator: char) -> Option<Seq<char>> {
    if picked == root {
        Some(Seq::empty())
    } else if picked.len() > root.len() && picked.take(root.len() as int) == root {
        if root.len() > 0 && root.last() == separator {
            Some(picked.skip(root.len() as int))
        } else if picked[root.len() as int] == separator {
            Some(picked.skip(root.len() as int + 1))
        } else {
            None
        }
    } else {
        None
    }
}

/// The path a file picked in the repo goes by inside it, or `None` for a file outside it,
/// with the path's components split at the platform's separator, `std::path::MAIN_SEPARATOR`:
/// `src/main.rs` on Unix, `src`, a backslash and `main.rs` on Windows. Both paths are resolved
/// before they are handed here - see [`inside_spec`] - because a repo is often reached through
/// a symlink, and an unresolved root would refuse a file plainly inside it.
///
/// The answer is [`path_inside_folder`]'s at the separator std gives: `/` or a backslash, and
/// which of the two the platform decides, so the contract says it is one of them.
pub fn path_inside_repo(repo_root: &str, picked: &str) -> (relative: Option<String>)
    ensures
        exists|separator: char|
            (separator == '/' || separator == '\\') && match #[trigger] inside_spec(
                repo_root@,
                picked@,
                separator,
            ) {
                Some(r) => relative matches Some(named) && named@ == r,
                None => relative is None,
            },
{
    let separator = main_separator();
    let relative = path_inside_folder(repo_root, picked, separator);
    assert(match inside_spec(repo_root@, picked@, separator) {
        Some(r) => relative matches Some(named) && named@ == r,
        None => relative is None,
    });
    relative
}

/// Where a file lies inside a folder, by [`inside_spec`], on a platform whose paths are split
/// at `separator`: `src/main.rs` for `/`, and the same with a backslash for a backslash.
pub fn path_inside_folder(repo_root: &str, picked: &str, separator: char) -> (relative: Option<String>)
    ensures
        match relative {
            Some(r) => inside_spec(repo_root@, picked@, separator) == Some(r@),
            None => inside_spec(repo_root@, picked@, separator) is None,
        },
{
    let root = chars_of(repo_root);
    let path = chars_of(picked);
    let n = root.len();
    if path.len() < n {
        proof {
            assert(picked@ != repo_root@);
        }
        return None;
    }
    let mut k: usize = 0;
    while k < n
        invariant
            root@ == repo_root@,
            path@ == picked@,
            n == root.len(),
            n <= path.len(),
            k <= n,
            forall|i: int| 0 <= i < k ==> path@[i] == root@[i],
        decreases n - k,
    {
        if path[k] != root[k] {
            proof {
                assert(picked@.take(n as int)[k as int] != repo_root@[k as int]);
                assert(picked@ != repo_root@);
            }
            return None;
        }
        k = k + 1;
    }
    assert(picked@.take(n as int) =~= repo_root@);
    if path.len() == n {
        assert(picked@ =~= repo_root@);
        return Some(String::new());
    }
    let start = if n > 0 && root[n - 1] == separator {
        n
    } else if path[n] == separator {
        n + 1
    } else {
        return None;
    };
    let rest = picked.substring_char(start, path.len());
    assert(rest@ =~= picked@.skip(start as int));
    Some(String::from_str(rest))
}

} // verus!
