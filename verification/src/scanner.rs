//! The boundary scanner: finds the first bracket-balanced region of a text.

use crate::text::character_count_fits;
use vstd::prelude::*;

verus! {

/// `{` and `[` open a region.
pub open spec fn is_opener(c: char) -> bool {
    c == '{' || c == '['
}

/// `}` and `]` close a region.
pub open spec fn is_closer(c: char) -> bool {
    c == '}' || c == ']'
}

/// `closer` is the closing bracket that belongs to `opener`.
pub open spec fn brackets_match(opener: char, closer: char) -> bool {
    (opener == '{' && closer == '}') || (opener == '[' && closer == ']')
}

/// One step of the stack discipline: an opener is pushed, a closer pops the
/// opener it belongs to when that opener is on top, and every other
/// character, a closer that does not fit included, leaves the stack alone.
pub open spec fn stack_step(stack: Seq<char>, c: char) -> Seq<char> {
    if is_opener(c) {
        stack.push(c)
    } else if stack.len() > 0 && brackets_match(stack.last(), c) {
        stack.drop_last()
    } else {
        stack
    }
}

/// The stack once the discipline has read all of `t`, starting from `stack`.
pub open spec fn stack_after(stack: Seq<char>, t: Seq<char>) -> Seq<char>
    decreases t.len(),
{
    if t.len() == 0 {
        stack
    } else {
        stack_step(stack_after(stack, t.drop_last()), t.last())
    }
}

/// The character at `start` is the first opening bracket of `s`.
pub open spec fn is_first_opener(s: Seq<char>, start: int) -> bool {
    &&& 0 <= start < s.len()
    &&& is_opener(s[start])
    &&& forall|j: int| 0 <= j < start ==> !is_opener(#[trigger] s[j])
}

/// Read from `start`, the stack is empty again for the first time right
/// after the character at `end - 1`.
pub open spec fn closes_at(s: Seq<char>, start: int, end: int) -> bool {
    &&& 0 <= start < end <= s.len()
    &&& stack_after(Seq::empty(), s.subrange(start, end)).len() == 0
    &&& forall|k: int|
        start < k < end ==> (#[trigger] stack_after(Seq::empty(), s.subrange(start, k))).len() > 0
}

/// `[start, end)` is the region that the scanner reports for `s`: it begins
/// at the first opening bracket and ends where the stack first runs empty.
pub open spec fn is_first_span(s: Seq<char>, start: int, end: int) -> bool {
    is_first_opener(s, start) && closes_at(s, start, end)
}

/// The region that the scanner reports for `s`, if there is one.
pub open spec fn first_span(s: Seq<char>) -> Option<(int, int)> {
    if exists|p: (int, int)| is_first_span(s, p.0, p.1) {
        Some(choose|p: (int, int)| is_first_span(s, p.0, p.1))
    } else {
        None
    }
}

/// The region that `first_span` names is the scanner's region.
pub proof fn lemma_first_span_holds(s: Seq<char>)
    ensures
        first_span(s) matches Some(p) ==> is_first_span(s, p.0, p.1),
{
}

/// A text has at most one such region.
pub proof fn lemma_first_span_unique(s: Seq<char>, a: int, b: int, c: int, d: int)
    requires
        is_first_span(s, a, b),
        is_first_span(s, c, d),
    ensures
        a == c,
        b == d,
{
    if a < c {
        assert(!is_opener(s[a]));
    }
    if c < a {
        assert(!is_opener(s[c]));
    }
    if b < d {
        assert(stack_after(Seq::empty(), s.subrange(c, b)).len() > 0);
    }
    if d < b {
        assert(stack_after(Seq::empty(), s.subrange(a, d)).len() > 0);
    }
}

/// Whoever knows the region knows what `first_span` is.
pub proof fn lemma_first_span_is(s: Seq<char>, a: int, b: int)
    requires
        is_first_span(s, a, b),
    ensures
        first_span(s) == Some((a, b)),
{
    let p = choose|p: (int, int)| is_first_span(s, p.0, p.1);
    assert(is_first_span(s, (a, b).0, (a, b).1));
    lemma_first_span_unique(s, a, b, p.0, p.1);
}

/// A span of offsets as the integers that the contracts speak of.
pub open spec fn span_view(r: Option<(usize, usize)>) -> Option<(int, int)> {
    match r {
        Some((a, b)) => Some((a as int, b as int)),
        None => None,
    }
}

/// What the scanner knows after it has read the first `i` characters of `s`.
pub open spec fn scan_state(s: Seq<char>, i: int, start: Option<usize>, stack: Seq<char>) -> bool {
    match start {
        None => stack.len() == 0 && forall|j: int| 0 <= j < i ==> !is_opener(#[trigger] s[j]),
        Some(a) => {
            &&& is_first_opener(s, a as int)
            &&& a < i
            &&& stack == stack_after(Seq::empty(), s.subrange(a as int, i))
            &&& forall|k: int|
                a < k <= i ==> (#[trigger] stack_after(Seq::empty(), s.subrange(a as int, k))).len()
                    > 0
        },
    }
}

/// Reading one more character is one step of the discipline.
proof fn lemma_stack_after_next(s: Seq<char>, a: int, i: int)
    requires
        0 <= a <= i < s.len(),
    ensures
        stack_after(Seq::empty(), s.subrange(a, i + 1)) == stack_step(
            stack_after(Seq::empty(), s.subrange(a, i)),
            s[i],
        ),
{
    let t = s.subrange(a, i + 1);
    assert(t.drop_last() =~= s.subrange(a, i));
    assert(t.last() == s[i]);
}

/// What the scanner knows is kept by reading the character at `i`, as long
/// as the stack is not empty after it.
proof fn lemma_scan_state_next(s: Seq<char>, i: int, start: Option<usize>, stack: Seq<char>)
    requires
        0 <= i < s.len() <= usize::MAX,
        scan_state(s, i, start, stack),
        start is Some || is_opener(s[i]) ==> stack_step(stack, s[i]).len() > 0,
    ensures
        scan_state(
            s,
            i + 1,
            if start is None && is_opener(s[i]) {
                Some(i as usize)
            } else {
                start
            },
            stack_step(stack, s[i]),
        ),
{
    match start {
        Some(a) => {
            lemma_stack_after_next(s, a as int, i);
        },
        None => {
            if is_opener(s[i]) {
                lemma_stack_after_next(s, i, i);
                assert(s.subrange(i, i).len() == 0);
                assert(stack =~= Seq::<char>::empty());
            }
        },
    }
}

/// A text that was read to its end without the stack running empty has no
/// region to report.
proof fn lemma_no_span_at_end(s: Seq<char>, start: Option<usize>, stack: Seq<char>)
    requires
        scan_state(s, s.len() as int, start, stack),
    ensures
        first_span(s) is None,
{
    assert forall|a: int, b: int| !is_first_span(s, a, b) by {
        if is_first_span(s, a, b) {
            match start {
                None => {
                    assert(!is_opener(s[a]));
                },
                Some(a0) => {
                    if a < a0 {
                        assert(!is_opener(s[a]));
                    }
                    if a0 < a {
                        assert(!is_opener(s[a0 as int]));
                    }
                    assert(stack_after(Seq::empty(), s.subrange(a0 as int, b)).len() > 0);
                },
            }
        }
    }
}

/// Finds the first bracket-balanced region of `s`: the offsets, counted in
/// characters, of its opening bracket and of the position after the bracket
/// that closes it.
///
/// The region begins at the first `{` or `[` of the text. From there every
/// opener is pushed, a closer pops the opener it belongs to when that one is
/// on top, and a closer that does not fit is passed over. The region ends
/// where the stack first runs empty. A text in which that never happens has
/// no region.
pub fn find_json_boundaries(s: &str) -> (r: Option<(usize, usize)>)
    ensures
        span_view(r) == first_span(s@),
        r matches Some((a, b)) ==> is_first_span(s@, a as int, b as int),
        r is None ==> forall|a: int, b: int| !is_first_span(s@, a, b),
{
    proof {
        lemma_first_span_holds(s@);
        if first_span(s@) is None {
            assert forall|a: int, b: int| !is_first_span(s@, a, b) by {
                if is_first_span(s@, a, b) {
                    lemma_first_span_is(s@, a, b);
                }
            }
        }
    }
    character_count_fits(s);
    let mut stack: Vec<char> = Vec::new();
    let mut start: Option<usize> = None;
    let mut i: usize = 0;
    let chars = s.chars();
    for c in it: chars
        invariant
            it.seq() == s@,
            s@.len() <= usize::MAX,
            i == it.index(),
            scan_state(s@, i as int, start, stack@),
    {
        let ghost before = stack@;
        let ghost start_before = start;
        let depth = stack.len();
        if c == '{' || c == '[' {
            if depth == 0 {
                start = Some(i);
            }
            stack.push(c);
        } else if depth > 0 && ((c == '}' && stack[depth - 1] == '{') || (c == ']' && stack[depth
            - 1] == '[')) {
            stack.pop();
            if let Some(a) = start {
                if depth == 1 {
                    proof {
                        lemma_stack_after_next(s@, a as int, i as int);
                        lemma_first_span_is(s@, a as int, i + 1);
                    }
                    return Some((a, i + 1));
                }
            }
        }
        proof {
            assert(stack@ =~= stack_step(before, c));
            lemma_scan_state_next(s@, i as int, start_before, before);
        }
        i += 1;
    }
    proof {
        lemma_no_span_at_end(s@, start, stack@);
    }
    None
}

} // verus!
