//! The crate namespace that an ELF file's path names: the file name without
//! its extension.
use vstd::prelude::*;

verus! {

/// The index just after the last `/` among the first `n` characters of `s`
/// (0 when there is none).
pub open spec fn after_last_slash(s: Seq<char>, n: int) -> int
    decreases n,
{
    if n <= 0 {
        0
    } else if s[n - 1] == '/' {
        n
    } else {
        after_last_slash(s, n - 1)
    }
}

/// The index of the first `.` at or after `j` (the length when there is none).
pub open spec fn first_dot_from(s: Seq<char>, j: int) -> int
    decreases s.len() - j,
{
    if j >= s.len() {
        s.len() as int
    } else if s[j] == '.' {
        j
    } else {
        first_dot_from(s, j + 1)
    }
}

/// The last `/`-separated segment of `path`, cut before its first `.`.
pub open spec fn crate_namespace_spec(path: Seq<char>) -> Seq<char> {
    let a = after_last_slash(path, path.len() as int);
    path.subrange(a, first_dot_from(path, a))
}

proof fn lemma_after_last_slash(s: Seq<char>, n: int)
    requires
        0 <= n <= s.len(),
    ensures
        0 <= after_last_slash(s, n) <= n,
        after_last_slash(s, n) > 0 ==> s[after_last_slash(s, n) - 1] == '/',
        forall|k: int| after_last_slash(s, n) <= k < n ==> s[k] != '/',
    decreases n,
{
    if n > 0 && s[n - 1] != '/' {
        lemma_after_last_slash(s, n - 1);
    }
}

proof fn lemma_first_dot_from(s: Seq<char>, j: int)
    requires
        0 <= j <= s.len(),
    ensures
        j <= first_dot_from(s, j) <= s.len(),
        first_dot_from(s, j) < s.len() ==> s[first_dot_from(s, j)] == '.',
        forall|k: int| j <= k < first_dot_from(s, j) ==> s[k] != '.',
    decreases s.len() - j,
{
    if j < s.len() && s[j] != '.' {
        lemma_first_dot_from(s, j + 1);
    }
}

/// The namespace a path names holds neither a `/` nor a `.`, and it is the
/// beginning of the path's last segment: it follows the path's last `/` (or
/// starts the path) and ends at a `.` or at the end of the path.
pub proof fn lemma_crate_namespace_shape(path: Seq<char>)
    ensures
        ({
            let ns = crate_namespace_spec(path);
            let a = after_last_slash(path, path.len() as int);
            &&& forall|k: int| 0 <= k < ns.len() ==> ns[k] != '/' && ns[k] != '.'
            &&& 0 <= a <= path.len()
            &&& a + ns.len() <= path.len()
            &&& ns == path.subrange(a, a + ns.len())
            &&& (a == 0 || path[a - 1] == '/')
            &&& forall|k: int| a <= k < path.len() ==> path[k] != '/'
            &&& (a + ns.len() == path.len() || path[a + ns.len()] == '.')
        }),
{
    let a = after_last_slash(path, path.len() as int);
    lemma_after_last_slash(path, path.len() as int);
    lemma_first_dot_from(path, a);
}

/// Returns the crate namespace that `elf_path` names: its last
/// `/`-separated segment up to the first `.`.
pub fn crate_namespace(elf_path: &str) -> (ns: &str)
    ensures
        ns@ == crate_namespace_spec(elf_path@),
{
    let n = elf_path.unicode_len();
    let mut a: usize = n;
    while a > 0 && elf_path.get_char(a - 1) != '/'
        invariant
            0 <= a <= n,
            n == elf_path@.len(),
            after_last_slash(elf_path@, n as int) == after_last_slash(elf_path@, a as int),
        decreases a,
    {
        a = a - 1;
    }
    let mut b: usize = a;
    while b < n && elf_path.get_char(b) != '.'
        invariant
            a <= b <= n,
            n == elf_path@.len(),
            first_dot_from(elf_path@, a as int) == first_dot_from(elf_path@, b as int),
        decreases n - b,
    {
        b = b + 1;
    }
    elf_path.substring_char(a, b)
}

} // verus!
