//! The stack usage of an entry point, derived from the paths that symbolic
//! execution explored through it.
use vstd::prelude::*;
use crate::text::{hex_digits, decimal_digits, format_hex, format_decimal};

verus! {

/// One explored path: the initial stack pointer and the stack addresses the
/// path touched, when they were recorded.
#[derive(Clone, Debug)]
pub struct PathResult {
    pub initial_sp: u64,
    pub stack_usage: Option<Vec<u64>>,
}

/// The deepest stack use found for an entry point.
#[derive(Debug)]
pub struct ParsedEntryPoint {
    initial_sp: u64,
    lowest_address: u64,
    max_stack_depth: u64,
}

impl View for ParsedEntryPoint {
    /// (initial stack pointer, lowest stack address, stack depth in bytes)
    type V = (u64, u64, u64);

    closed spec fn view(&self) -> (u64, u64, u64) {
        (self.initial_sp, self.lowest_address, self.max_stack_depth)
    }
}

impl ParsedEntryPoint {
    /// The depth is the distance from the initial stack pointer down to the
    /// lowest address.
    #[verifier::type_invariant]
    spec fn depth_is_span(self) -> bool {
        self.lowest_address <= self.initial_sp && self.max_stack_depth == self.initial_sp - self.lowest_address
    }

    pub fn initial_sp(&self) -> (r: u64)
        ensures
            r == self@.0,
            self@.1 <= self@.0,
            self@.2 == self@.0 - self@.1,
    {
        proof {
            use_type_invariant(self);
        }
        self.initial_sp
    }

    pub fn lowest_address(&self) -> (r: u64)
        ensures
            r == self@.1,
            self@.1 <= self@.0,
            self@.2 == self@.0 - self@.1,
    {
        proof {
            use_type_invariant(self);
        }
        self.lowest_address
    }

    pub fn max_stack_depth(&self) -> (r: u64)
        ensures
            r == self@.2,
            self@.1 <= self@.0,
            r == self@.0 - self@.1,
    {
        proof {
            use_type_invariant(self);
        }
        self.max_stack_depth
    }
}

/// The smallest element of a non-empty sequence.
pub open spec fn seq_min(s: Seq<u64>) -> u64
    decreases s.len(),
{
    if s.len() <= 1 {
        s[0]
    } else {
        let m = seq_min(s.drop_last());
        if s.last() < m {
            s.last()
        } else {
            m
        }
    }
}

/// The minimum of a non-empty sequence is one of its elements and no
/// element lies below it.
pub proof fn law_seq_min_is_lowest(s: Seq<u64>)
    requires
        s.len() > 0,
    ensures
        s.contains(seq_min(s)),
        forall|k: int| 0 <= k < s.len() ==> seq_min(s) <= #[trigger] s[k],
    decreases s.len(),
{
    if s.len() > 1 {
        let p = s.drop_last();
        law_seq_min_is_lowest(p);
        let m = seq_min(p);
        let w = choose|k: int| 0 <= k < p.len() && p[k] == m;
        assert(s[w] == m);
        assert(s[s.len() - 1] == s.last());
        assert forall|k: int| 0 <= k < s.len() implies seq_min(s) <= #[trigger] s[k] by {
            if k < s.len() - 1 {
                assert(p[k] == s[k]);
            }
        }
    } else {
        assert(s[0] == seq_min(s));
    }
}

/// A path with recorded stack addresses, the lowest of which does not lie
/// above the initial stack pointer.
pub open spec fn is_analyzable(r: PathResult) -> bool {
    &&& r.stack_usage is Some
    &&& r.stack_usage->0@.len() > 0
    &&& seq_min(r.stack_usage->0@) <= r.initial_sp
}

/// The stack depth a path reached.
pub open spec fn path_depth(r: PathResult) -> int {
    r.initial_sp - seq_min(r.stack_usage->0@)
}

/// What a path yields: (initial stack pointer, lowest address, depth).
pub open spec fn path_entry(r: PathResult) -> (u64, u64, u64) {
    (r.initial_sp, seq_min(r.stack_usage->0@), (r.initial_sp - seq_min(r.stack_usage->0@)) as u64)
}

/// The index of the path kept after looking at the first `n` paths: a path
/// replaces the kept one when it is strictly deeper (the first kept one must
/// be deeper than zero).
pub open spec fn best_upto(rs: Seq<PathResult>, n: int) -> Option<int>
    decreases n,
{
    if n <= 0 {
        None
    } else {
        let prev = best_upto(rs, n - 1);
        let deepest = match prev {
            None => 0,
            Some(k) => path_depth(rs[k]),
        };
        if path_depth(rs[n - 1]) > deepest {
            Some(n - 1)
        } else {
            prev
        }
    }
}

pub open spec fn all_analyzable(rs: Seq<PathResult>) -> bool {
    forall|i: int| 0 <= i < rs.len() ==> is_analyzable(#[trigger] rs[i])
}

pub open spec fn has_positive_depth(rs: Seq<PathResult>) -> bool {
    exists|i: int| 0 <= i < rs.len() && path_depth(#[trigger] rs[i]) > 0
}

/// The lowest of the recorded stack addresses.
fn stack_min(stack: &Vec<u64>) -> (m: u64)
    requires
        stack@.len() > 0,
    ensures
        m == seq_min(stack@),
{
    let mut min: u64 = stack[0];
    let mut i: usize = 1;
    proof {
        assert(stack@.subrange(0, 1).drop_last() =~= Seq::<u64>::empty());
    }
    while i < stack.len()
        invariant
            1 <= i <= stack@.len(),
            min == seq_min(stack@.subrange(0, i as int)),
        decreases stack@.len() - i,
    {
        proof {
            assert(stack@.subrange(0, i + 1).drop_last() =~= stack@.subrange(0, i as int));
        }
        if stack[i] < min {
            min = stack[i];
        }
        i = i + 1;
    }
    proof {
        assert(stack@.subrange(0, stack@.len() as int) =~= stack@);
    }
    min
}

/// Computes the lowest recorded address of a path and its depth below the
/// initial stack pointer.
pub fn get_path_result(result: &PathResult) -> (p: ParsedEntryPoint)
    requires
        is_analyzable(*result),
    ensures
        p@ == path_entry(*result),
{
    let stack = match &result.stack_usage {
        Some(v) => v,
        None => { return ParsedEntryPoint { initial_sp: 0, lowest_address: 0, max_stack_depth: 0 }; },
    };
    let min = stack_min(stack);
    let initial_sp = result.initial_sp;
    ParsedEntryPoint { initial_sp, lowest_address: min, max_stack_depth: initial_sp - min }
}

/// Whether the paths can be analysed: each has recorded stack addresses,
/// none lying above its initial stack pointer as the lowest, and some path
/// reaches a positive depth.
pub fn results_are_analyzable(results: &[PathResult]) -> (b: bool)
    ensures
        b == (all_analyzable(results@) && has_positive_depth(results@)),
{
    let mut positive = false;
    let mut i: usize = 0;
    while i < results.len()
        invariant
            0 <= i <= results@.len(),
            forall|j: int| 0 <= j < i ==> is_analyzable(#[trigger] results@[j]),
            positive == exists|j: int| 0 <= j < i && path_depth(#[trigger] results@[j]) > 0,
        decreases results@.len() - i,
    {
        let r = &results[i];
        match &r.stack_usage {
            None => { return false; },
            Some(stack) => {
                if stack.len() == 0 {
                    return false;
                }
                let min = stack_min(stack);
                if min > r.initial_sp {
                    return false;
                }
                if min < r.initial_sp {
                    positive = true;
                }
            },
        }
        proof {
            assert(is_analyzable(results@[i as int]));
            if path_depth(results@[i as int]) > 0 {
                assert(exists|j: int| 0 <= j < i + 1 && path_depth(#[trigger] results@[j]) > 0);
            }
            if exists|j: int| 0 <= j < i + 1 && path_depth(#[trigger] results@[j]) > 0 {
                let j = choose|j: int| 0 <= j < i + 1 && path_depth(#[trigger] results@[j]) > 0;
                if j < i {
                    assert(exists|j: int| 0 <= j < i && path_depth(#[trigger] results@[j]) > 0);
                }
            }
        }
        i = i + 1;
    }
    positive
}

proof fn lemma_best_bounds(rs: Seq<PathResult>, n: int)
    requires
        0 <= n <= rs.len(),
    ensures
        best_upto(rs, n) matches Some(k) ==> 0 <= k < n && path_depth(rs[k]) > 0,
    decreases n,
{
    if n > 0 {
        lemma_best_bounds(rs, n - 1);
    }
}

/// Picks, among the explored paths, the first one of greatest stack depth.
pub fn analyze_path_results(results: &[PathResult]) -> (p: ParsedEntryPoint)
    requires
        all_analyzable(results@),
        has_positive_depth(results@),
    ensures
        best_upto(results@, results@.len() as int) is Some,
        p@ == path_entry(results@[best_upto(results@, results@.len() as int)->0]),
        p@.1 <= p@.0,
        p@.2 == p@.0 - p@.1,
        p@.2 > 0,
{
    let mut deepest: u64 = 0;
    let mut best: Option<ParsedEntryPoint> = None;
    let mut i: usize = 0;
    while i < results.len()
        invariant
            0 <= i <= results@.len(),
            all_analyzable(results@),
            match best_upto(results@, i as int) {
                None => best is None && deepest == 0,
                Some(k) => best matches Some(b) && b@ == path_entry(results@[k]) && deepest == path_depth(results@[k]),
            },
        decreases results@.len() - i,
    {
        proof {
            lemma_best_bounds(results@, i as int);
        }
        assert(is_analyzable(results@[i as int]));
        let path_result = get_path_result(&results[i]);
        let depth = path_result.max_stack_depth();
        if depth > deepest {
            deepest = depth;
            best = Some(path_result);
        }
        i = i + 1;
    }
    proof {
        let w = choose|w: int| 0 <= w < results@.len() && path_depth(#[trigger] results@[w]) > 0;
        lemma_best_present(results@, w, results@.len() as int);
        lemma_best_bounds(results@, results@.len() as int);
        let k = best_upto(results@, results@.len() as int)->0;
        assert(is_analyzable(results@[k]));
    }
    match best {
        Some(b) => b,
        None => ParsedEntryPoint { initial_sp: 0, lowest_address: 0, max_stack_depth: 0 },
    }
}

proof fn lemma_best_present(rs: Seq<PathResult>, w: int, n: int)
    requires
        0 <= w < n <= rs.len(),
        path_depth(rs[w]) > 0,
    ensures
        best_upto(rs, n) is Some,
    decreases n,
{
    if n - 1 > w {
        lemma_best_present(rs, w, n - 1);
    }
}

proof fn lemma_best_upto_props(rs: Seq<PathResult>, n: int)
    requires
        0 <= n <= rs.len(),
    ensures
        match best_upto(rs, n) {
            None => forall|j: int| 0 <= j < n ==> path_depth(#[trigger] rs[j]) <= 0,
            Some(k) => {
                &&& 0 <= k < n
                &&& forall|j: int| 0 <= j < n ==> path_depth(#[trigger] rs[j]) <= path_depth(rs[k])
                &&& forall|j: int| 0 <= j < k ==> path_depth(#[trigger] rs[j]) < path_depth(rs[k])
            },
        },
    decreases n,
{
    if n > 0 {
        lemma_best_upto_props(rs, n - 1);
    }
}

/// The analysis keeps the first path of greatest depth: no explored path
/// reaches deeper, and every path before it stays strictly shallower.
pub proof fn law_deepest_path_chosen(rs: Seq<PathResult>)
    requires
        has_positive_depth(rs),
    ensures
        best_upto(rs, rs.len() as int) matches Some(k) && {
            &&& 0 <= k < rs.len()
            &&& path_depth(rs[k]) > 0
            &&& forall|j: int| 0 <= j < rs.len() ==> path_depth(#[trigger] rs[j]) <= path_depth(rs[k])
            &&& forall|j: int| 0 <= j < k ==> path_depth(#[trigger] rs[j]) < path_depth(rs[k])
        },
{
    let w = choose|w: int| 0 <= w < rs.len() && path_depth(#[trigger] rs[w]) > 0;
    lemma_best_present(rs, w, rs.len() as int);
    lemma_best_upto_props(rs, rs.len() as int);
    lemma_best_bounds(rs, rs.len() as int);
}

/// The text that describes an entry point's stack use.
pub open spec fn display_text(v: (u64, u64, u64)) -> Seq<char> {
    "Initial SP: "@ + ("0x"@ + hex_digits(v.0 as nat)) + "\nLowest Address: "@ + ("0x"@ + hex_digits(v.1 as nat))
        + "\nMax Stack Depth: "@ + decimal_digits(v.2 as nat) + " bytes"@
}

impl ParsedEntryPoint {
    /// Describes the entry point: its initial stack pointer and lowest
    /// address in hexadecimal, and its stack depth in bytes.
    pub fn to_string(&self) -> (s: String)
        ensures
            s@ == display_text(self@),
    {
        let text = "Initial SP: ".to_owned();
        let text = text.concat(format_hex(self.initial_sp).as_str());
        let text = text.concat("\nLowest Address: ");
        let text = text.concat(format_hex(self.lowest_address).as_str());
        let text = text.concat("\nMax Stack Depth: ");
        let text = text.concat(format_decimal(self.max_stack_depth).as_str());
        text.concat(" bytes")
    }
}

} // verus!
