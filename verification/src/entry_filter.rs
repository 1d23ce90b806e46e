//! Removing the firmware's `main` entry points from a list of functions.
use vstd::prelude::*;
use crate::dwarf_model::{Names, names_view};

verus! {

#[verifier::external_type_specification]
#[verifier::external_body]
pub struct ExRegexError(regex::Error);

/// Whether `regex::Regex::new` accepts the pattern.
pub uninterp spec fn regex_compiles(pattern: Seq<char>) -> bool;

/// What `regex::Regex::is_match` answers for the compiled pattern on the
/// haystack.
pub uninterp spec fn regex_matches(pattern: Seq<char>, haystack: Seq<char>) -> bool;

/// An ASCII letter, digit or underscore: a character that a regular
/// expression matches literally.
pub open spec fn is_word_char(c: char) -> bool {
    ('a' <= c && c <= 'z') || ('A' <= c && c <= 'Z') || ('0' <= c && c <= '9') || c == '_'
}

pub open spec fn is_word_text(s: Seq<char>) -> bool {
    forall|k: int| 0 <= k < s.len() ==> is_word_char(#[trigger] s[k])
}

/// A pattern of the form `^text$` where the text is made of word characters.
pub open spec fn is_anchored_literal(p: Seq<char>) -> bool {
    &&& p.len() >= 2
    &&& p[0] == '^'
    &&& p[p.len() - 1] == '$'
    &&& is_word_text(anchored_text(p))
}

/// The text between the anchors of an anchored pattern.
pub open spec fn anchored_text(p: Seq<char>) -> Seq<char> {
    p.subrange(1, p.len() - 1)
}

/// Compiles `pattern` with `regex::Regex::new` and asks `Regex::is_match`
/// about `haystack`. Claimed: success exactly when the pattern compiles, and
/// then the named answer; and, from the regex documentation (`^` and `$`
/// match the start and end of the haystack outside multi-line mode, word
/// characters match themselves), an anchored literal pattern compiles and
/// matches exactly the haystack equal to its text; such a pattern of at
/// most 64 characters compiles (far below the default size limit of the
/// compiled program).
#[verifier::external_body]
fn regex_is_match(pattern: &str, haystack: &str) -> (r: Result<bool, regex::Error>)
    ensures
        r is Ok <==> regex_compiles(pattern@),
        r matches Ok(b) ==> b == regex_matches(pattern@, haystack@),
        r is Ok <== is_anchored_literal(pattern@) && pattern@.len() <= 64,
        r matches Ok(b) ==> (is_anchored_literal(pattern@) ==> (b <==> haystack@ == anchored_text(pattern@))),
{
    match regex::Regex::new(pattern) {
        Ok(re) => Ok(re.is_match(haystack)),
        Err(e) => Err(e),
    }
}

/// `names` without the names equal to `m`, in their order.
pub open spec fn without_name(names: Names, m: Seq<char>) -> Names
    decreases names.len(),
{
    if names.len() == 0 {
        Seq::empty()
    } else {
        let rest = without_name(names.drop_last(), m);
        if names.last() == m {
            rest
        } else {
            rest.push(names.last())
        }
    }
}

/// The names of the entry points that firmware runtimes use for `main`.
pub open spec fn is_known_main(n: Seq<char>) -> bool {
    n == "main"@ || n == "__cortex_m_rt_main"@ || n == "__cortex_m_rt_main_trampoline"@
}

/// The three removals in their order.
pub open spec fn without_known_mains(names: Names) -> Names {
    without_name(without_name(without_name(names, "main"@), "__cortex_m_rt_main"@), "__cortex_m_rt_main_trampoline"@)
}

/// `names` without the known `main` entry points, in one pass.
pub open spec fn non_mains(names: Names) -> Names
    decreases names.len(),
{
    if names.len() == 0 {
        Seq::empty()
    } else {
        let rest = non_mains(names.drop_last());
        if is_known_main(names.last()) {
            rest
        } else {
            rest.push(names.last())
        }
    }
}

/// Removes the names that the anchored pattern `^name$` matches.
fn drop_entry_point(names: &Vec<String>, name: &str) -> (r: Vec<String>)
    requires
        is_word_text(name@),
        name@.len() <= 62,
    ensures
        names_view(r@) == without_name(names_view(names@), name@),
{
    let pattern = "^".to_owned().concat(name).concat("$");
    proof {
        reveal_strlit("^");
        reveal_strlit("$");
        assert(anchored_text(pattern@) =~= name@);
    }
    let mut out: Vec<String> = Vec::new();
    let mut i: usize = 0;
    while i < names.len()
        invariant
            0 <= i <= names@.len(),
            is_anchored_literal(pattern@),
            pattern@.len() <= 64,
            anchored_text(pattern@) == name@,
            names_view(out@) == without_name(names_view(names@).subrange(0, i as int), name@),
        decreases names@.len() - i,
    {
        let ghost prefix = names_view(names@).subrange(0, i as int);
        let ghost next = names_view(names@).subrange(0, i + 1);
        proof {
            assert(next.drop_last() =~= prefix);
            assert(next.last() == names@[i as int]@);
        }
        match regex_is_match(pattern.as_str(), names[i].as_str()) {
            Ok(true) => {},
            Ok(false) => {
                let ghost before = out@;
                out.push(names[i].clone());
                proof {
                    assert(names_view(out@) =~= names_view(before).push(names@[i as int]@));
                }
            },
            Err(_) => {},
        }
        i = i + 1;
    }
    proof {
        assert(names_view(names@).subrange(0, names@.len() as int) =~= names_view(names@));
    }
    out
}

/// Removes the entry points named `main`, `__cortex_m_rt_main` and
/// `__cortex_m_rt_main_trampoline`, keeping the others in their order.
pub fn remove_known_main_entry_points(names: Vec<String>) -> (r: Vec<String>)
    ensures
        names_view(r@) == without_known_mains(names_view(names@)),
{
    proof {
        reveal_strlit("main");
        reveal_strlit("__cortex_m_rt_main");
        reveal_strlit("__cortex_m_rt_main_trampoline");
    }
    let first = drop_entry_point(&names, "main");
    let second = drop_entry_point(&first, "__cortex_m_rt_main");
    drop_entry_point(&second, "__cortex_m_rt_main_trampoline")
}

proof fn lemma_push_parts(x: Names, l: Seq<char>)
    ensures
        x.push(l).drop_last() == x,
        x.push(l).last() == l,
        x.push(l).len() > 0,
{
    assert(x.push(l).drop_last() =~= x);
}

proof fn lemma_three_passes_are_one(names: Names)
    ensures
        without_known_mains(names) == non_mains(names),
    decreases names.len(),
{
    if names.len() > 0 {
        let p = names.drop_last();
        let l = names.last();
        lemma_three_passes_are_one(p);
        let w1 = without_name(p, "main"@);
        let w2 = without_name(w1, "__cortex_m_rt_main"@);
        lemma_push_parts(w1, l);
        lemma_push_parts(w2, l);
        lemma_push_parts(without_name(w2, "__cortex_m_rt_main_trampoline"@), l);
    }
}

proof fn lemma_push_contains(x: Names, l: Seq<char>, n: Seq<char>)
    ensures
        x.push(l).contains(n) <==> (x.contains(n) || n == l),
{
    if x.push(l).contains(n) {
        let k = choose|k: int| 0 <= k < x.push(l).len() && x.push(l)[k] == n;
        if k < x.len() {
            assert(x[k] == n);
        }
    }
    if x.contains(n) {
        let k = choose|k: int| 0 <= k < x.len() && x[k] == n;
        assert(x.push(l)[k] == n);
    }
    if n == l {
        assert(x.push(l)[x.len() as int] == n);
    }
}

proof fn lemma_non_mains_members(names: Names)
    ensures
        forall|n: Seq<char>| #![trigger non_mains(names).contains(n)] #![trigger names.contains(n)] non_mains(names).contains(n) <==> (names.contains(n) && !is_known_main(n)),
    decreases names.len(),
{
    if names.len() == 0 {
        assert forall|n: Seq<char>| #![trigger non_mains(names).contains(n)] #![trigger names.contains(n)] non_mains(names).contains(n) <==> (names.contains(n) && !is_known_main(n)) by {
            assert(non_mains(names).len() == 0);
        }
    } else {
        let p = names.drop_last();
        let l = names.last();
        lemma_non_mains_members(p);
        assert(names =~= p.push(l));
        let r = non_mains(p);
        assert forall|n: Seq<char>| #![trigger non_mains(names).contains(n)] #![trigger names.contains(n)] non_mains(names).contains(n) <==> (names.contains(n) && !is_known_main(n)) by {
            lemma_push_contains(p, l, n);
            lemma_push_contains(r, l, n);
            assert(r.contains(n) <==> (p.contains(n) && !is_known_main(n)));
            if is_known_main(l) {
                assert(non_mains(names) == r);
            } else {
                assert(non_mains(names) == r.push(l));
            }
        }
    }
}

/// Removing the known `main` entry points keeps exactly the other names:
/// the three removals in turn amount to one filter, no known `main` is left,
/// and a name is kept exactly when it was there and is not a known `main`.
pub proof fn law_known_mains_removed(names: Names)
    ensures
        without_known_mains(names) == non_mains(names),
        forall|k: int| 0 <= k < without_known_mains(names).len() ==> !is_known_main(#[trigger] without_known_mains(names)[k]),
        forall|n: Seq<char>| without_known_mains(names).contains(n) <==> (names.contains(n) && !is_known_main(n)),
{
    lemma_three_passes_are_one(names);
    lemma_non_mains_members(names);
    let r = non_mains(names);
    assert forall|k: int| 0 <= k < r.len() implies !is_known_main(#[trigger] r[k]) by {
        assert(r.contains(r[k]));
    }
}

} // verus!
