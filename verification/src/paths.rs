//! Path and URL string arithmetic: every operation of the pipeline decides its
//! behaviour from suffixes, substrings and separator positions of plain `/`
//! separated path strings, and this module holds those decisions with exact
//! contracts over the strings' character sequences.

use vstd::prelude::*;

verus! {

/// Whether `s` ends with `suffix`.
pub open spec fn ends_with(s: Seq<char>, suffix: Seq<char>) -> bool {
    suffix.len() <= s.len() && s.subrange(s.len() - suffix.len(), s.len() as int) == suffix
}

/// Whether `pat` occurs in `s` starting at index `at`.
pub open spec fn occurs_at(s: Seq<char>, pat: Seq<char>, at: int) -> bool {
    0 <= at && at + pat.len() <= s.len() && s.subrange(at, at + pat.len()) == pat
}

/// Whether `pat` occurs anywhere in `s`.
pub open spec fn contains_seq(s: Seq<char>, pat: Seq<char>) -> bool {
    exists|at: int| occurs_at(s, pat, at)
}

/// Whether `s` holds a `/` separator anywhere.
pub open spec fn has_slash(s: Seq<char>) -> bool {
    exists|i: int| 0 <= i < s.len() && s[i] == '/'
}

/// The index of the last `/` in `s`, or `-1` when there is none.
pub open spec fn last_slash(s: Seq<char>) -> int
    decreases s.len(),
{
    if s.len() == 0 {
        -1
    } else if s[s.len() - 1] == '/' {
        s.len() - 1
    } else {
        last_slash(s.drop_last())
    }
}

/// The parent directory of a path: everything before its last separator.
pub open spec fn parent_dir(s: Seq<char>) -> Seq<char> {
    s.subrange(0, last_slash(s))
}

/// A relative artifact path resolved against the artifact root.
pub open spec fn resolved(root: Seq<char>, rel: Seq<char>) -> Seq<char> {
    root + "/"@ + rel
}

/// The name a gzip tool expects: the path with `.gz` appended.
pub open spec fn gz_name(path: Seq<char>) -> Seq<char> {
    path + ".gz"@
}

/// What decompressing in place leaves behind: the path without its `.gz`
/// suffix, or the path itself when it carries none.
pub open spec fn gunzip_result(path: Seq<char>) -> Seq<char> {
    if ends_with(path, ".gz"@) {
        path.subrange(0, path.len() - ".gz"@.len())
    } else {
        path
    }
}

/// The human-readable KML sidecar sitting beside a binary target: the target
/// path with its `.bin` extension replaced by `.kml`, or the path unchanged
/// when it carries no binary extension.
pub open spec fn kml_sidecar(path: Seq<char>) -> Seq<char> {
    if ends_with(path, ".bin"@) {
        path.subrange(0, path.len() - ".bin"@.len()) + ".kml"@
    } else {
        path
    }
}

/// The single well-known landing point of every download before it is
/// normalized into its final form.
pub open spec fn temp_path() -> Seq<char> {
    "tmp_output"@
}

/// The temporary artifact's name as a value.
pub fn temp_file_name() -> (r: String)
    ensures
        r@ == temp_path(),
{
    "tmp_output".to_owned()
}

/// Whether `s` ends with `suffix`, compared character by character.
pub fn str_ends_with(s: &str, suffix: &str) -> (r: bool)
    ensures
        r == ends_with(s@, suffix@),
{
    let n = s.unicode_len();
    let m = suffix.unicode_len();
    if m > n {
        return false;
    }
    let mut i: usize = 0;
    while i < m
        invariant
            m <= n,
            n == s@.len(),
            m == suffix@.len(),
            i <= m,
            forall|j: int| 0 <= j < i ==> s@[n - m + j] == suffix@[j],
        decreases m - i,
    {
        if s.get_char(n - m + i) != suffix.get_char(i) {
            proof {
                if ends_with(s@, suffix@) {
                    assert(s@.subrange(n - m, n as int)[i as int] == suffix@[i as int]);
                }
            }
            return false;
        }
        i += 1;
    }
    proof {
        assert(s@.subrange(n - m, n as int) =~= suffix@);
    }
    true
}

/// Whether `pat` occurs in `s` at the given position.
fn match_at(s: &str, pat: &str, at: usize) -> (r: bool)
    requires
        at + pat@.len() <= s@.len() <= usize::MAX,
    ensures
        r == occurs_at(s@, pat@, at as int),
{
    let m = pat.unicode_len();
    let mut i: usize = 0;
    while i < m
        invariant
            at + m <= s@.len() <= usize::MAX,
            m == pat@.len(),
            i <= m,
            forall|j: int| 0 <= j < i ==> s@[at + j] == pat@[j],
        decreases m - i,
    {
        if s.get_char(at + i) != pat.get_char(i) {
            proof {
                if occurs_at(s@, pat@, at as int) {
                    assert(s@.subrange(at as int, at + m)[i as int] == pat@[i as int]);
                }
            }
            return false;
        }
        i += 1;
    }
    proof {
        assert(s@.subrange(at as int, at + m) =~= pat@);
    }
    true
}

/// Whether `pat` occurs anywhere in `s` (substring containment, not suffix
/// matching: some hosts serve archives through URLs with query-string tails).
pub fn str_contains(s: &str, pat: &str) -> (r: bool)
    ensures
        r == contains_seq(s@, pat@),
{
    let n = s.unicode_len();
    let m = pat.unicode_len();
    if m == 0 {
        proof {
            assert(s@.subrange(0, 0) =~= pat@);
            assert(occurs_at(s@, pat@, 0));
        }
        return true;
    }
    if m > n {
        proof {
            if contains_seq(s@, pat@) {
                let at = choose|at: int| occurs_at(s@, pat@, at);
            }
        }
        return false;
    }
    let mut i: usize = 0;
    while i <= n - m
        invariant
            n == s@.len(),
            m == pat@.len(),
            1 <= m <= n,
            i <= n - m + 1,
            forall|k: int| 0 <= k < i ==> !occurs_at(s@, pat@, k),
        decreases n - m + 1 - i,
    {
        if match_at(s, pat, i) {
            return true;
        }
        i += 1;
    }
    proof {
        if contains_seq(s@, pat@) {
            let at = choose|at: int| occurs_at(s@, pat@, at);
            assert(!occurs_at(s@, pat@, at));
        }
    }
    false
}

/// Whether two strings hold the same characters.
pub fn str_eq(a: &str, b: &str) -> (r: bool)
    ensures
        r == (a@ == b@),
{
    let n = a.unicode_len();
    if n != b.unicode_len() {
        return false;
    }
    let mut i: usize = 0;
    while i < n
        invariant
            n == a@.len(),
            n == b@.len(),
            i <= n,
            forall|j: int| 0 <= j < i ==> a@[j] == b@[j],
        decreases n - i,
    {
        if a.get_char(i) != b.get_char(i) {
            return false;
        }
        i += 1;
    }
    proof {
        assert(a@ =~= b@);
    }
    true
}

/// Resolves a relative artifact path against the artifact root.
pub fn resolve(root: &str, rel: &str) -> (r: String)
    ensures
        r@ == resolved(root@, rel@),
{
    let mut r = root.to_owned();
    r.append("/");
    r.append(rel);
    r
}

/// A resolved path always holds the separator the resolution put in.
pub proof fn lemma_resolved_has_slash(root: Seq<char>, rel: Seq<char>)
    ensures
        has_slash(resolved(root, rel)),
{
    reveal_strlit("/");
    assert(resolved(root, rel)[root.len() as int] == '/');
}

/// When a separator stands at `at` and none after it, `at` is the last one.
proof fn lemma_last_slash_at(s: Seq<char>, at: int)
    requires
        0 <= at < s.len(),
        s[at] == '/',
        forall|j: int| at < j < s.len() ==> s[j] != '/',
    ensures
        last_slash(s) == at,
    decreases s.len(),
{
    if at == s.len() - 1 {
    } else {
        assert(s.drop_last()[at] == '/');
        lemma_last_slash_at(s.drop_last(), at);
    }
}

/// The last separator of a path that has one is a real index.
pub proof fn lemma_last_slash_in_range(s: Seq<char>)
    requires
        has_slash(s),
    ensures
        0 <= last_slash(s) < s.len(),
        s[last_slash(s)] == '/',
    decreases s.len(),
{
    let i = choose|i: int| 0 <= i < s.len() && s[i] == '/';
    if s[s.len() - 1] == '/' {
    } else {
        assert(s.drop_last()[i] == '/');
        lemma_last_slash_in_range(s.drop_last());
    }
}

/// The parent directory of a path: everything before its last separator.
pub fn parent_of(path: &str) -> (r: String)
    requires
        has_slash(path@),
    ensures
        r@ == parent_dir(path@),
{
    let n = path.unicode_len();
    let mut i: usize = n;
    while i > 0
        invariant
            n == path@.len(),
            i <= n,
            forall|j: int| i <= j < n ==> path@[j] != '/',
        decreases i,
    {
        if path.get_char(i - 1) == '/' {
            proof {
                lemma_last_slash_at(path@, i - 1);
            }
            let stem = path.substring_char(0, i - 1);
            return stem.to_owned();
        }
        i -= 1;
    }
    proof {
        let k = choose|k: int| 0 <= k < path@.len() && path@[k] == '/';
        assert(false);
    }
    String::new()
}

/// The name a gzip tool expects: the path with `.gz` appended.
pub fn with_gz_suffix(path: &str) -> (r: String)
    ensures
        r@ == gz_name(path@),
{
    let mut r = path.to_owned();
    r.append(".gz");
    r
}

/// Appending `.gz` and decompressing in place restore the original path: the
/// final output of the gzip route never retains a `.gz` suffix.
pub proof fn lemma_gz_round_trip(path: Seq<char>)
    ensures
        gunzip_result(gz_name(path)) == path,
{
    reveal_strlit(".gz");
    assert(ends_with(gz_name(path), ".gz"@)) by {
        assert(gz_name(path).subrange(
            gz_name(path).len() - ".gz"@.len(),
            gz_name(path).len() as int,
        ) =~= ".gz"@);
    }
    assert(gz_name(path).subrange(0, path.len() as int) =~= path);
}

/// The KML sidecar path beside a binary target.
pub fn kml_sidecar_path(path: &str) -> (r: String)
    ensures
        r@ == kml_sidecar(path@),
{
    if str_ends_with(path, ".bin") {
        proof {
            reveal_strlit(".bin");
        }
        let n = path.unicode_len();
        let stem = path.substring_char(0, n - 4);
        let mut r = stem.to_owned();
        r.append(".kml");
        r
    } else {
        path.to_owned()
    }
}

/// The temporary artifact's name holds no separator, so it never collides with
/// a resolved target path.
pub proof fn lemma_temp_path_no_slash()
    ensures
        !has_slash(temp_path()),
{
    reveal_strlit("tmp_output");
    assert forall|i: int| 0 <= i < temp_path().len() implies temp_path()[i] != '/' by {
        if i == 0 {
        } else if i == 1 {
        } else if i == 2 {
        } else if i == 3 {
        } else if i == 4 {
        } else if i == 5 {
        } else if i == 6 {
        } else if i == 7 {
        } else if i == 8 {
        } else {
            assert(i == 9);
        }
    }
}

} // verus!
