//! What the boundary scanner does on well-nested and on ill-nested text.

use crate::scanner::{
    brackets_match, closes_at, first_span, is_closer, is_first_opener, is_first_span, is_opener,
    lemma_first_span_holds, lemma_first_span_is, lemma_first_span_unique, stack_after, stack_step,
};
use vstd::prelude::*;

verus! {

/// The stack of open brackets after `t` under proper nesting, where every
/// closer must fit the opener on top: `None` once one does not.
pub open spec fn nesting_of(t: Seq<char>) -> Option<Seq<char>>
    decreases t.len(),
{
    if t.len() == 0 {
        Some(Seq::empty())
    } else {
        match nesting_of(t.drop_last()) {
            None => None,
            Some(open) => {
                let c = t.last();
                if is_opener(c) {
                    Some(open.push(c))
                } else if is_closer(c) {
                    if open.len() > 0 && brackets_match(open.last(), c) {
                        Some(open.drop_last())
                    } else {
                        None
                    }
                } else {
                    Some(open)
                }
            },
        }
    }
}

/// Every bracket of `t` has its partner in `t`, and the pairs nest.
pub open spec fn is_balanced(t: Seq<char>) -> bool {
    nesting_of(t) == Some(Seq::<char>::empty())
}

/// `region` is an opening bracket, a balanced text, and the closing bracket
/// that belongs to the opening one.
pub open spec fn is_balanced_region(region: Seq<char>) -> bool {
    &&& region.len() >= 2
    &&& brackets_match(region.first(), region.last())
    &&& is_balanced(region.subrange(1, region.len() - 1))
}

/// The number of opening brackets in `t`.
pub open spec fn opener_count(t: Seq<char>) -> nat
    decreases t.len(),
{
    if t.len() == 0 {
        0
    } else {
        opener_count(t.drop_last()) + if is_opener(t.last()) {
            1nat
        } else {
            0nat
        }
    }
}

/// The number of closing brackets in `t`.
pub open spec fn closer_count(t: Seq<char>) -> nat
    decreases t.len(),
{
    if t.len() == 0 {
        0
    } else {
        closer_count(t.drop_last()) + if is_closer(t.last()) {
            1nat
        } else {
            0nat
        }
    }
}

/// Reading `x` and then `y` is reading `x + y`.
proof fn lemma_stack_after_concat(base: Seq<char>, x: Seq<char>, y: Seq<char>)
    ensures
        stack_after(base, x + y) == stack_after(stack_after(base, x), y),
    decreases y.len(),
{
    if y.len() == 0 {
        assert(x + y =~= x);
    } else {
        assert((x + y).drop_last() =~= x + y.drop_last());
        assert((x + y).last() == y.last());
        lemma_stack_after_concat(base, x, y.drop_last());
    }
}

/// Read from an empty stack, an opening bracket alone leaves itself.
proof fn lemma_single_opener(c: char)
    requires
        is_opener(c),
    ensures
        stack_after(Seq::empty(), seq![c]) == seq![c],
{
    let t = seq![c];
    assert(t.drop_last() =~= Seq::<char>::empty());
    assert(stack_after(Seq::empty(), t.drop_last()) == Seq::<char>::empty());
    assert(Seq::<char>::empty().push(c) =~= t);
}

/// A prefix of properly nested text is properly nested so far.
proof fn lemma_nesting_of_prefix(t: Seq<char>, k: int)
    requires
        0 <= k <= t.len(),
        nesting_of(t) is Some,
    ensures
        nesting_of(t.take(k)) is Some,
    decreases t.len(),
{
    if k == t.len() {
        assert(t.take(k) =~= t);
    } else {
        assert(t.drop_last().take(k) =~= t.take(k));
        lemma_nesting_of_prefix(t.drop_last(), k);
    }
}

/// On properly nested text the scanner's stack is the stack of open
/// brackets, on top of what it started from.
proof fn lemma_nesting_is_followed(base: Seq<char>, t: Seq<char>)
    requires
        nesting_of(t) is Some,
    ensures
        stack_after(base, t) == base + nesting_of(t)->0,
    decreases t.len(),
{
    if t.len() == 0 {
        assert(base + Seq::<char>::empty() =~= base);
    } else {
        lemma_nesting_is_followed(base, t.drop_last());
        let open = nesting_of(t.drop_last())->0;
        let c = t.last();
        if is_opener(c) {
            assert((base + open).push(c) =~= base + open.push(c));
        } else if is_closer(c) {
            assert((base + open).last() == open.last());
            assert((base + open).drop_last() =~= base + open.drop_last());
        }
    }
}

/// The scanner finds a balanced region: where the first opening bracket of
/// a text begins a balanced region, that region is what the scanner reports,
/// whatever is nested in it and whatever follows it.
pub proof fn lemma_balanced_region_is_found(pre: Seq<char>, region: Seq<char>, post: Seq<char>)
    requires
        forall|i: int| 0 <= i < pre.len() ==> !is_opener(#[trigger] pre[i]),
        is_balanced_region(region),
    ensures
        first_span(pre + region + post) == Some(
            (pre.len() as int, pre.len() as int + region.len() as int),
        ),
{
    let s = pre + region + post;
    let a = pre.len() as int;
    let b = a + region.len();
    let body = region.subrange(1, region.len() - 1);
    let opener = seq![region.first()];
    assert(s[a] == region.first());
    assert forall|j: int| 0 <= j < a implies !is_opener(#[trigger] s[j]) by {
        assert(s[j] == pre[j]);
    }
    assert forall|k: int| a < k < b implies (#[trigger] stack_after(
        Seq::empty(),
        s.subrange(a, k),
    )).len() > 0 by {
        let inner = body.take(k - a - 1);
        assert(s.subrange(a, k) =~= opener + inner);
        lemma_stack_after_concat(Seq::empty(), opener, inner);
        lemma_single_opener(region.first());
        lemma_nesting_of_prefix(body, k - a - 1);
        lemma_nesting_is_followed(opener, inner);
    }
    assert(stack_after(Seq::empty(), s.subrange(a, b)).len() == 0) by {
        let whole = s.subrange(a, b);
        assert(whole =~= region);
        assert(whole.drop_last() =~= opener + body);
        lemma_stack_after_concat(Seq::empty(), opener, body);
        lemma_single_opener(region.first());
        lemma_nesting_is_followed(opener, body);
        assert(opener + Seq::<char>::empty() =~= opener);
        assert(stack_step(opener, region.last()) =~= Seq::<char>::empty());
    }
    lemma_first_span_is(s, a, b);
}

/// The region that the scanner reports is the only one: no other pair of
/// offsets meets its description.
pub proof fn lemma_first_span_is_the_only_one(s: Seq<char>, a: int, b: int)
    requires
        is_first_span(s, a, b),
    ensures
        first_span(s) == Some((a, b)),
        forall|c: int, d: int| is_first_span(s, c, d) ==> c == a && d == b,
{
    lemma_first_span_is(s, a, b);
    assert forall|c: int, d: int| is_first_span(s, c, d) implies c == a && d == b by {
        lemma_first_span_unique(s, a, b, c, d);
    }
}

/// A text without an opening bracket has no region.
pub proof fn lemma_no_opener_no_span(s: Seq<char>)
    requires
        forall|i: int| 0 <= i < s.len() ==> !is_opener(#[trigger] s[i]),
    ensures
        first_span(s) is None,
{
    lemma_first_span_holds(s);
}

/// While the first opening bracket is unanswered it stays at the bottom of
/// the stack.
proof fn lemma_bottom_stays(s: Seq<char>, a: int, k: int)
    requires
        is_first_opener(s, a),
        a < k <= s.len(),
        forall|j: int| a < j < k ==> !brackets_match(s[a], #[trigger] s[j]),
    ensures
        stack_after(Seq::empty(), s.subrange(a, k)).len() > 0,
        stack_after(Seq::empty(), s.subrange(a, k))[0] == s[a],
    decreases k - a,
{
    let t = s.subrange(a, k);
    assert(t.drop_last() =~= s.subrange(a, k - 1));
    assert(t.last() == s[k - 1]);
    if k == a + 1 {
        assert(t =~= seq![s[a]]);
        lemma_single_opener(s[a]);
    } else {
        lemma_bottom_stays(s, a, k - 1);
        assert(!brackets_match(s[a], s[k - 1]));
    }
}

/// A closer that does not fit closes nothing: where nothing after the first
/// opening bracket is the closing bracket that belongs to it, the text has
/// no region.
pub proof fn lemma_unanswered_opener_no_span(s: Seq<char>, a: int)
    requires
        is_first_opener(s, a),
        forall|j: int| a < j < s.len() ==> !brackets_match(s[a], #[trigger] s[j]),
    ensures
        first_span(s) is None,
{
    lemma_first_span_holds(s);
    if let Some((c, d)) = first_span(s) {
        if c < a {
            assert(!is_opener(s[c]));
        }
        if a < c {
            assert(!is_opener(s[a]));
        }
        lemma_bottom_stays(s, a, d);
    }
}

/// The stack is at least as deep as the openers outnumber the closers.
proof fn lemma_depth_bound(t: Seq<char>)
    ensures
        stack_after(Seq::empty(), t).len() + closer_count(t) >= opener_count(t),
    decreases t.len(),
{
    if t.len() > 0 {
        lemma_depth_bound(t.drop_last());
    }
}

/// Unbalanced text has no region: where from the first opening bracket on
/// fewer brackets have been closed than opened at every point, the stack
/// never runs empty.
pub proof fn lemma_unclosed_no_span(s: Seq<char>, a: int)
    requires
        is_first_opener(s, a),
        forall|k: int|
            a < k <= s.len() ==> closer_count(#[trigger] s.subrange(a, k)) < opener_count(
                s.subrange(a, k),
            ),
    ensures
        first_span(s) is None,
{
    lemma_first_span_holds(s);
    if let Some((c, d)) = first_span(s) {
        if c < a {
            assert(!is_opener(s[c]));
        }
        if a < c {
            assert(!is_opener(s[a]));
        }
        lemma_depth_bound(s.subrange(a, d));
    }
}

/// Scanning a reported region again reports all of it.
pub proof fn lemma_region_scans_to_itself(s: Seq<char>, a: int, b: int)
    requires
        is_first_span(s, a, b),
    ensures
        first_span(s.subrange(a, b)) == Some((0int, b - a)),
{
    let r = s.subrange(a, b);
    assert(r[0] == s[a]);
    assert(r.subrange(0, b - a) =~= r);
    assert forall|k: int| 0 < k < b - a implies (#[trigger] stack_after(
        Seq::empty(),
        r.subrange(0, k),
    )).len() > 0 by {
        assert(r.subrange(0, k) =~= s.subrange(a, a + k));
    }
    assert(closes_at(r, 0, b - a));
    lemma_first_span_is(r, 0, b - a);
}

} // verus!
