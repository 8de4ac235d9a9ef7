//! The decisions of source discovery: which files are excluded, which
//! extensions are accepted, and under what name an admitted file is
//! recorded. The walking of directories and all file-system questions
//! stay with the caller, which hands in plain paths.

use vstd::prelude::*;

verus! {

/// What `glob_match::glob_match` returns for a pattern and a path; it
/// depends on the two strings alone.
pub uninterp spec fn glob_matches(pattern: Seq<char>, path: Seq<char>) -> bool;

/// Relies on `glob_match::glob_match`: whether the glob pattern
/// (with `*`, `**`, `?`, classes and braces) matches the path.
#[verifier::external_body]
fn glob_match_call(pattern: &Vec<char>, path: &Vec<char>) -> (r: bool)
    ensures
        r == glob_matches(pattern@, path@),
{
    let p: String = pattern.iter().collect();
    let q: String = path.iter().collect();
    glob_match::glob_match(&p, &q)
}

/// An exclusion rule: a path prefix, or a glob pattern.
pub enum Exclusion {
    Path(Vec<char>),
    Pattern(Vec<char>),
}

/// Is `prefix` a path prefix of `path`, whole components only: equal,
/// or followed in `path` by a separator (or the prefix itself ends
/// with one).
pub open spec fn path_starts_with(path: Seq<char>, prefix: Seq<char>) -> bool {
    &&& prefix.len() <= path.len()
    &&& path.subrange(0, prefix.len() as int) == prefix
    &&& (path.len() == prefix.len() || path[prefix.len() as int] == '/' || (prefix.len() > 0 && prefix.last()
        == '/'))
}

/// Does the exclusion rule reject the path?
pub open spec fn excluded_by(path: Seq<char>, x: Exclusion) -> bool {
    match x {
        Exclusion::Path(p) => path_starts_with(path, p@),
        Exclusion::Pattern(p) => glob_matches(p@, path),
    }
}

/// Does `x` stand for the configured exclusion entry `e` under
/// `root`? An entry with a wildcard is a pattern; otherwise it is a
/// path, absolute as given or joined to the root.
pub open spec fn exclusion_matches(x: Exclusion, e: Seq<char>, root: Seq<char>) -> bool {
    if e.contains('*') {
        x matches Exclusion::Pattern(p) && p@ == e
    } else if e.len() > 0 && e[0] == '/' {
        x matches Exclusion::Path(p) && p@ == e
    } else {
        x matches Exclusion::Path(p) && p@ == root + seq!['/'] + e
    }
}

/// Is `prefix` a whole-component prefix of `path`?
pub fn starts_with_path(path: &Vec<char>, prefix: &Vec<char>) -> (r: bool)
    ensures
        r == path_starts_with(path@, prefix@),
{
    let np = prefix.len();
    if np > path.len() {
        return false;
    }
    let mut i: usize = 0;
    while i < np
        invariant
            0 <= i <= np,
            np == prefix@.len(),
            np <= path@.len(),
            forall|j: int| 0 <= j < i ==> path@[j] == prefix@[j],
        decreases np - i,
    {
        if path[i] != prefix[i] {
            assert(path@[i as int] != prefix@[i as int]);
            assert(!(path@.subrange(0, np as int) == prefix@)) by {
                if path@.subrange(0, np as int) == prefix@ {
                    assert(path@.subrange(0, np as int)[i as int] == path@[i as int]);
                }
            }
            return false;
        }
        i += 1;
    }
    assert(path@.subrange(0, np as int) =~= prefix@);
    if path.len() == np {
        return true;
    }
    if path[np] == '/' {
        return true;
    }
    if np > 0 && prefix[np - 1] == '/' {
        return true;
    }
    false
}

/// Builds the exclusion rules from the configured entries: an entry
/// with a wildcard becomes a pattern, an absolute entry a path, and a
/// relative entry a path under the root.
pub fn create_excludes_set(excludes: &Vec<Vec<char>>, root: &Vec<char>) -> (r: Vec<Exclusion>)
    ensures
        r@.len() == excludes@.len(),
        forall|i: int| 0 <= i < r@.len() ==> exclusion_matches(#[trigger] r@[i], excludes@[i]@, root@),
{
    let n = excludes.len();
    let mut r: Vec<Exclusion> = Vec::new();
    let mut i: usize = 0;
    while i < n
        invariant
            0 <= i <= n,
            n == excludes@.len(),
            r@.len() == i,
            forall|j: int| 0 <= j < i ==> exclusion_matches(#[trigger] r@[j], excludes@[j]@, root@),
        decreases n - i,
    {
        let e = &excludes[i];
        let mut has_star = false;
        let mut k: usize = 0;
        while k < e.len()
            invariant
                0 <= k <= e@.len(),
                has_star == (exists|j: int| 0 <= j < k && e@[j] == '*'),
            decreases e@.len() - k,
        {
            if e[k] == '*' {
                assert(e@[k as int] == '*');
                has_star = true;
            }
            k += 1;
        }
        assert(has_star == e@.contains('*')) by {
            if e@.contains('*') {
                let j = choose|j: int| 0 <= j < e@.len() && e@[j] == '*';
            }
        }
        let x: Exclusion;
        if has_star {
            x = Exclusion::Pattern(crate::document::copy_chars(e));
        } else if e.len() > 0 && e[0] == '/' {
            x = Exclusion::Path(crate::document::copy_chars(e));
        } else {
            let mut joined = crate::document::copy_chars(root);
            joined.push('/');
            let mut k2: usize = 0;
            while k2 < e.len()
                invariant
                    0 <= k2 <= e@.len(),
                    joined@ =~= root@ + seq!['/'] + e@.subrange(0, k2 as int),
                decreases e@.len() - k2,
            {
                joined.push(e[k2]);
                assert((root@ + seq!['/'] + e@.subrange(0, k2 as int)).push(e@[k2 as int]) =~= root@ + seq!['/']
                    + e@.subrange(0, k2 + 1));
                k2 += 1;
            }
            assert(e@.subrange(0, e@.len() as int) =~= e@);
            x = Exclusion::Path(joined);
        }
        r.push(x);
        i += 1;
    }
    r
}

/// Is the path rejected by any of the exclusion rules? Any match
/// excludes, whatever its position in the list.
pub fn is_excluded(path: &Vec<char>, excludes: &Vec<Exclusion>) -> (r: bool)
    ensures
        r == exists|i: int| 0 <= i < excludes@.len() && excluded_by(path@, #[trigger] excludes@[i]),
{
    let n = excludes.len();
    let mut i: usize = 0;
    while i < n
        invariant
            0 <= i <= n,
            n == excludes@.len(),
            forall|j: int| 0 <= j < i ==> !excluded_by(path@, #[trigger] excludes@[j]),
        decreases n - i,
    {
        let hit: bool = match &excludes[i] {
            Exclusion::Path(p) => starts_with_path(path, p),
            Exclusion::Pattern(p) => glob_match_call(p, path),
        };
        if hit {
            assert(excluded_by(path@, excludes@[i as int]));
            return true;
        }
        assert(!excluded_by(path@, excludes@[i as int]));
        i += 1;
    }
    false
}

/// The extension of a path: the text after the last `.` of its file
/// name, none when the name has no dot or starts with its only dot.
pub open spec fn ext_from(path: Seq<char>, j: int) -> Option<Seq<char>>
    decreases j,
{
    if j <= 0 {
        None
    } else if path[j] == '.' {
        if path[j - 1] == '/' {
            None
        } else {
            Some(path.subrange(j + 1, path.len() as int))
        }
    } else if path[j] == '/' {
        None
    } else {
        ext_from(path, j - 1)
    }
}

/// See `ext_from`: the scan starts at the last character.
pub open spec fn extension_of(path: Seq<char>) -> Option<Seq<char>> {
    ext_from(path, path.len() - 1)
}

/// Is `s` the letters `php` in any case?
pub open spec fn is_php_ext(s: Seq<char>) -> bool {
    s.len() == 3 && (s[0] == 'p' || s[0] == 'P') && (s[1] == 'h' || s[1] == 'H') && (s[2] == 'p' || s[2] == 'P')
}

/// The extension of the path, when it has one.
pub fn path_extension(path: &Vec<char>) -> (r: Option<Vec<char>>)
    ensures
        (r is None) == (extension_of(path@) is None),
        r matches Some(v) ==> (extension_of(path@) matches Some(e) && v@ == e),
{
    let n = path.len();
    if n == 0 {
        return None;
    }
    let mut j: usize = n - 1;
    loop
        invariant
            0 <= j < n,
            n == path@.len(),
            ext_from(path@, n - 1) == ext_from(path@, j as int),
        ensures
            ext_from(path@, n - 1) == ext_from(path@, j as int),
            j == 0 || path@[j as int] == '.' || path@[j as int] == '/',
        decreases j,
    {
        let c = path[j];
        if c == '.' || c == '/' || j == 0 {
            break;
        }
        j -= 1;
    }
    if j == 0 {
        return None;
    }
    let c = path[j];
    if c == '/' {
        return None;
    }
    if path[j - 1] == '/' {
        return None;
    }
    let mut ext: Vec<char> = Vec::new();
    let mut k: usize = j + 1;
    while k < n
        invariant
            j + 1 <= k <= n,
            n == path@.len(),
            ext@ =~= path@.subrange(j + 1, k as int),
        decreases n - k,
    {
        ext.push(path[k]);
        assert(path@.subrange(j + 1, k as int).push(path@[k as int]) =~= path@.subrange(j + 1, k + 1));
        k += 1;
    }
    Some(ext)
}

/// Is the file accepted by its extension? With no configured
/// extensions, `php` in any ASCII case is accepted; otherwise the
/// extension must equal a configured one exactly.
pub open spec fn accepted_file(path: Seq<char>, extensions: Seq<Vec<char>>) -> bool {
    match extension_of(path) {
        Some(e) => {
            if extensions.len() == 0 {
                is_php_ext(e)
            } else {
                exists|i: int| 0 <= i < extensions.len() && (#[trigger] extensions[i])@ == e
            }
        },
        None => false,
    }
}

/// See `accepted_file`.
pub fn is_accepted_file(path: &Vec<char>, extensions: &Vec<Vec<char>>) -> (r: bool)
    ensures
        r == accepted_file(path@, extensions@),
{
    let ext = path_extension(path);
    match ext {
        None => false,
        Some(e) => {
            if extensions.len() == 0 {
                if e.len() != 3 {
                    return false;
                }
                let ok = (e[0] == 'p' || e[0] == 'P') && (e[1] == 'h' || e[1] == 'H') && (e[2] == 'p' || e[2]
                    == 'P');
                ok
            } else {
                let n = extensions.len();
                let mut i: usize = 0;
                while i < n
                    invariant
                        0 <= i <= n,
                        n == extensions@.len(),
                        extension_of(path@) == Some(e@),
                        forall|j: int| 0 <= j < i ==> (#[trigger] extensions@[j])@ != e@,
                    decreases n - i,
                {
                    let exti = &extensions[i];
                    if exti.len() == e.len() {
                        let m = e.len();
                        let mut same = true;
                        let mut k: usize = 0;
                        while k < m
                            invariant
                                0 <= k <= m,
                                m == e@.len(),
                                exti@.len() == m,
                                same == (forall|q: int| 0 <= q < k ==> exti@[q] == e@[q]),
                            decreases m - k,
                        {
                            if exti[k] != e[k] {
                                assert(exti@[k as int] != e@[k as int]);
                                same = false;
                            }
                            k += 1;
                        }
                        if same {
                            assert(exti@ =~= e@);
                            assert(extensions@[i as int]@ == e@);
                            assert(accepted_file(path@, extensions@));
                            return true;
                        }
                        assert(exti@ != e@) by {
                            if exti@ == e@ {
                                let q = choose|q: int| 0 <= q < m && exti@[q] != e@[q];
                            }
                        }
                    } else {
                        assert(exti@ != e@) by {
                            if exti@ == e@ {
                                assert(exti@.len() == e@.len());
                            }
                        }
                    }
                    i += 1;
                }
                false
            }
        },
    }
}

/// Where the root-relative name of a path under `root` starts: after
/// the root, and after the one separator that follows it when the
/// root does not already end with one.
pub open spec fn rel_start(path: Seq<char>, root: Seq<char>) -> int {
    root.len() + if root.len() < path.len() && path[root.len() as int] == '/' {
        1int
    } else {
        0int
    }
}

/// The decision of admitting one file: nothing when a user-defined
/// path lies under an include, when an exclusion rejects it, or when a
/// file's extension is not accepted; otherwise the name it is recorded
/// under — relative to the root when the path lies under it, the full
/// path otherwise.
pub fn file_admission(
    path: &Vec<char>,
    root: &Vec<char>,
    includes: &Vec<Vec<char>>,
    excludes: &Vec<Exclusion>,
    extensions: &Vec<Vec<char>>,
    user_defined: bool,
    is_file: bool,
) -> (r: Option<Vec<char>>)
    ensures
        (r is None) == {
            ||| (user_defined && exists|i: int|
                0 <= i < includes@.len() && path_starts_with(path@, (#[trigger] includes@[i])@))
            ||| (exists|i: int| 0 <= i < excludes@.len() && excluded_by(path@, #[trigger] excludes@[i]))
            ||| (is_file && !accepted_file(path@, extensions@))
        },
        r matches Some(name) ==> (if path_starts_with(path@, root@) && rel_start(path@, root@)
            < path@.len() {
            name@ == path@.subrange(rel_start(path@, root@), path@.len() as int)
        } else {
            name@ == path@
        }),
{
    if user_defined {
        let n = includes.len();
        let mut i: usize = 0;
        while i < n
            invariant
                0 <= i <= n,
                n == includes@.len(),
                user_defined,
                forall|j: int| 0 <= j < i ==> !path_starts_with(path@, (#[trigger] includes@[j])@),
            decreases n - i,
        {
            if starts_with_path(path, &includes[i]) {
                assert(path_starts_with(path@, includes@[i as int]@));
                return None;
            }
            i += 1;
        }
    }
    if is_excluded(path, excludes) {
        return None;
    }
    if is_file && !is_accepted_file(path, extensions) {
        return None;
    }
    let nr = root.len();
    let under_root = starts_with_path(path, root);
    let mut start = nr;
    if under_root && nr < path.len() && path[nr] == '/' {
        start = nr + 1;
    }
    assert(under_root ==> start == rel_start(path@, root@));
    if under_root && start < path.len() {
        let mut name: Vec<char> = Vec::new();
        let mut k: usize = start;
        let n = path.len();
        while k < n
            invariant
                start <= k <= n,
                n == path@.len(),
                name@ =~= path@.subrange(start as int, k as int),
            decreases n - k,
        {
            name.push(path[k]);
            assert(path@.subrange(start as int, k as int).push(path@[k as int]) =~= path@.subrange(
                start as int,
                k + 1,
            ));
            k += 1;
        }
        Some(name)
    } else {
        Some(crate::document::copy_chars(path))
    }
}

} // verus!
