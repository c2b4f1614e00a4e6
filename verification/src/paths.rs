//! Path reasoning: traversal-free archive entry paths, recipe-name
//! validation, and the few string-level path operations the pipeline needs.
//!
//! Archive member paths are untrusted input.  An entry may only be unpacked
//! when its path is relative and contains no parent-directory segment, so
//! that the resolved target always stays below the recipe's own workspace
//! directory.

use vstd::prelude::*;

verus! {

/// Compares two string slices by their character sequences.
pub fn str_eq(a: &str, b: &str) -> (r: bool)
    ensures
        r == (a@ == b@),
{
    let sa = String::from_str(a);
    let sb = String::from_str(b);
    sa == sb
}

/// Whether one of the strings in `v` reads as `s`.
pub fn contains_string(v: &Vec<String>, s: &str) -> (r: bool)
    ensures
        r == v.deep_view().contains(s@),
{
    let mut j: usize = 0;
    while j < v.len()
        invariant
            j <= v@.len(),
            forall|k: int| 0 <= k < j ==> v@[k]@ != s@,
        decreases v@.len() - j,
    {
        if str_eq(v[j].as_str(), s) {
            proof {
                assert(v.deep_view()[j as int] == s@);
            }
            return true;
        }
        j += 1;
    }
    proof {
        if v.deep_view().contains(s@) {
            let k = choose|k: int|
                0 <= k < v.deep_view().len() && v.deep_view()[k] == s@;
            assert(v@[k]@ != s@);
        }
    }
    false
}

/// Position `i` starts a `..` path segment of `s`: two dots bounded by the
/// string edge or a separator on both sides.
pub open spec fn dotdot_segment_at(s: Seq<char>, i: int) -> bool {
    &&& 0 <= i
    &&& i + 2 <= s.len()
    &&& s[i] == '.'
    &&& s[i + 1] == '.'
    &&& (i == 0 || s[i - 1] == '/')
    &&& (i + 2 == s.len() || s[i + 2] == '/')
}

/// An archive entry path that may be unpacked: non-empty, relative, and
/// free of parent-directory segments, so it resolves below the target
/// directory.
pub open spec fn safe_entry_path(s: Seq<char>) -> bool {
    &&& s.len() > 0
    &&& s[0] != '/'
    &&& forall|i: int| !dotdot_segment_at(s, i)
}

/// Decides [`safe_entry_path`] for an untrusted archive member path.
pub fn entry_path_is_safe(path: &str) -> (r: bool)
    ensures
        r == safe_entry_path(path@),
{
    let n = path.unicode_len();
    if n == 0 {
        return false;
    }
    if path.get_char(0) == '/' {
        return false;
    }
    if n >= 2 {
        let mut i: usize = 0;
        while i <= n - 2
            invariant
                n == path@.len(),
                2 <= n,
                i <= n,
                forall|j: int| j < i ==> !dotdot_segment_at(path@, j),
            decreases n - i,
        {
            let hit = path.get_char(i) == '.' && path.get_char(i + 1) == '.' && (i == 0
                || path.get_char(i - 1) == '/') && (i + 2 == n || path.get_char(i + 2) == '/');
            if hit {
                assert(dotdot_segment_at(path@, i as int));
                return false;
            }
            i += 1;
        }
        proof {
            assert forall|j: int| !dotdot_segment_at(path@, j) by {
                if j >= i {
                    assert(j + 2 > n);
                }
            }
        }
    } else {
        proof {
            assert forall|j: int| !dotdot_segment_at(path@, j) by {
                assert(j + 2 > n || j < 0);
            }
        }
    }
    true
}

/// A recipe name that may serve as a single directory component under the
/// workspace root: non-empty, no separator, and not a dot or dot-dot
/// segment.
pub open spec fn valid_recipe_name(s: Seq<char>) -> bool {
    &&& s.len() > 0
    &&& !s.contains('/')
    &&& s != seq!['.']
    &&& s != seq!['.', '.']
}

/// Decides [`valid_recipe_name`] for an untrusted recipe name.
pub fn recipe_name_is_valid(name: &str) -> (r: bool)
    ensures
        r == valid_recipe_name(name@),
{
    let n = name.unicode_len();
    if n == 0 {
        return false;
    }
    let mut i: usize = 0;
    let mut dots_only = true;
    while i < n
        invariant
            n == name@.len(),
            i <= n,
            forall|j: int| 0 <= j < i ==> name@[j] != '/',
            dots_only == (forall|j: int| 0 <= j < i ==> name@[j] == '.'),
        decreases n - i,
    {
        let c = name.get_char(i);
        if c == '/' {
            assert(name@.contains('/'));
            return false;
        }
        if c != '.' {
            dots_only = false;
        }
        i += 1;
    }
    proof {
        assert forall|j: int| 0 <= j < name@.len() implies !(name@[j] == '/') by {}
        if name@.contains('/') {
            let k = choose|k: int| 0 <= k < name@.len() && name@[k] == '/';
            assert(false);
        }
    }
    if dots_only && n <= 2 {
        proof {
            if n == 1 {
                assert(name@ =~= seq!['.']);
            } else {
                assert(name@ =~= seq!['.', '.']);
            }
        }
        false
    } else {
        proof {
            if !dots_only {
                let k = choose|k: int| 0 <= k < name@.len() && name@[k] != '.';
                assert(name@ != seq!['.'] && name@ != seq!['.', '.']);
            } else {
                assert(name@.len() > 2);
                assert(name@ != seq!['.'] && name@ != seq!['.', '.']);
            }
        }
        true
    }
}

/// The path of entry `name` directly under directory `base`.
pub open spec fn joined(base: Seq<char>, name: Seq<char>) -> Seq<char> {
    base + seq!['/'] + name
}

/// Joins one untrusted component under a base directory path.
pub fn join_path(base: &str, name: &str) -> (r: String)
    ensures
        r@ == joined(base@, name@),
{
    let mut r = String::from_str(base);
    r.append("/");
    r.append(name);
    proof {
        reveal_strlit("/");
        assert(r@ =~= joined(base@, name@));
    }
    r
}

/// The final path component of `s`: everything after the last separator
/// (empty when `s` ends in a separator or is empty).
pub open spec fn file_name_of(s: Seq<char>) -> Seq<char>
    decreases s.len(),
{
    if s.len() == 0 {
        Seq::<char>::empty()
    } else if s[s.len() - 1] == '/' {
        Seq::<char>::empty()
    } else {
        file_name_of(s.drop_last()).push(s[s.len() - 1])
    }
}

proof fn lemma_file_name_suffix(s: Seq<char>, cut: int)
    requires
        0 <= cut <= s.len(),
        forall|k: int| cut <= k < s.len() ==> s[k] != '/',
        cut == 0 || s[cut - 1] == '/',
    ensures
        file_name_of(s) == s.subrange(cut, s.len() as int),
    decreases s.len(),
{
    if s.len() == 0 {
        assert(file_name_of(s) =~= s.subrange(cut, s.len() as int));
    } else if cut == s.len() {
        assert(s[s.len() - 1] == '/');
        assert(file_name_of(s) =~= s.subrange(cut, s.len() as int));
    } else {
        assert(s[s.len() - 1] != '/');
        let t = s.drop_last();
        assert(forall|k: int| cut <= k < t.len() ==> t[k] == s[k]);
        lemma_file_name_suffix(t, cut);
        assert(t.subrange(cut, t.len() as int) =~= s.subrange(cut, s.len() as int).drop_last());
        assert(file_name_of(s) =~= s.subrange(cut, s.len() as int));
    }
}

/// Extracts the final path component, as `file_name_of` describes it.
pub fn file_name(path: &str) -> (r: String)
    ensures
        r@ == file_name_of(path@),
{
    let n = path.unicode_len();
    let mut cut: usize = 0;
    let mut i: usize = 0;
    while i < n
        invariant
            n == path@.len(),
            i <= n,
            cut <= i,
            cut == 0 || path@[cut - 1] == '/',
            forall|k: int| cut <= k < i ==> path@[k] != '/',
        decreases n - i,
    {
        if path.get_char(i) == '/' {
            cut = i + 1;
        }
        i += 1;
    }
    proof {
        lemma_file_name_suffix(path@, cut as int);
    }
    let tail = path.substring_char(cut, n);
    String::from_str(tail)
}

} // verus!
