//! The strict matcher: recognises the canonical `function_call` shape with
//! one regular expression and writes the call down again as a two-key object.

use crate::text::text_view;
use vstd::prelude::*;

verus! {

/// The canonical shape as a regular expression.
///
/// The shape is an object with the one key `function_call`, whose value is
/// an object with the keys `name` and `arguments`, in that order and both
/// strings that are not empty. White space may stand between the tokens. A
/// string runs up to the first quote that no backslash escapes. Groups 1 and
/// 2 capture what stands between the quotes of name and arguments.
///
/// A reply that is as a whole this object escaped once more, with a
/// backslash before each quote and two for each backslash, is recognised as
/// well: there groups 3 and 4 capture name and arguments.
pub const STRICT_PATTERN: &'static str =
    r#"(?s)(?:\{\s*"function_call"\s*:\s*\{\s*"name"\s*:\s*"((?:[^"\\]|\\.)+)"\s*,\s*"arguments"\s*:\s*"((?:[^"\\]|\\.)+)"\s*\}\s*\}|\A\s*\{\s*\\"function_call\\"\s*:\s*\{\s*\\"name\\"\s*:\s*\\"((?:[^"\\]|\\\\(?:[^"\\]|\\"|\\\\))+)\\"\s*,\s*\\"arguments\\"\s*:\s*\\"((?:[^"\\]|\\\\(?:[^"\\]|\\"|\\\\))+)\\"\s*\}\s*\}\s*\z)"#;

/// Whether the `regex` crate accepts `pattern` as a regular expression.
pub uninterp spec fn regex_compiles(pattern: Seq<char>) -> bool;

/// The leftmost match of `pattern` in `text` as the `regex` crate finds it:
/// the text of every capture group, the whole match first, with `None` for a
/// group that took no part. `None` where nothing matches.
pub uninterp spec fn regex_captures(pattern: Seq<char>, text: Seq<char>) -> Option<
    Seq<Option<Seq<char>>>,
>;

/// `regex::Error`, the error of `regex::Regex::new`. Nothing is known of a
/// value of it.
#[verifier::external_type_specification]
#[verifier::external_body]
pub struct ExRegexError(regex::Error);

/// Capture groups as the characters that the contracts speak of.
pub open spec fn groups_view(groups: Seq<Option<String>>) -> Seq<Option<Seq<char>>> {
    Seq::new(groups.len(), |i: int| text_view(groups[i]))
}

/// The outcome of a search, as the contracts speak of it.
pub open spec fn search_view(found: Option<Vec<Option<String>>>) -> Option<
    Seq<Option<Seq<char>>>,
> {
    match found {
        Some(groups) => Some(groups_view(groups@)),
        None => None,
    }
}

/// Calls `regex::Regex::new` on the pattern and `Regex::captures` on the
/// text, and copies the text of each group of the match out of
/// `regex::Captures`. Trusted: the call fails exactly when the pattern does
/// not compile, and otherwise hands back `regex_captures` of pattern and
/// text, the same for the same two every time.
#[verifier::external_body]
pub(crate) fn search(pattern: &str, text: &str) -> (r: Result<
    Option<Vec<Option<String>>>,
    regex::Error,
>)
    ensures
        r is Ok == regex_compiles(pattern@),
        r matches Ok(found) ==> search_view(found) == regex_captures(pattern@, text@),
{
    let re = regex::Regex::new(pattern)?;
    let found = re.captures(text);
    Ok(found.map(|caps| caps.iter().map(|m| m.map(|m| m.as_str().to_string())).collect()))
}

/// The canonical two-key object for a call: `{"name":"N","arguments":"A"}`
/// with `name` for N and `arguments` for A, both as they are.
pub open spec fn canonical_call(name: Seq<char>, arguments: Seq<char>) -> Seq<char> {
    "{\"name\":\""@ + name + "\",\"arguments\":\""@ + arguments + "\"}"@
}

/// Writes a call down as the canonical two-key object.
pub fn emit_function_call(name: &str, arguments: &str) -> (r: String)
    ensures
        r@ == canonical_call(name@, arguments@),
{
    let mut out = String::from_str("{\"name\":\"");
    out.append(name);
    out.append("\",\"arguments\":\"");
    out.append(arguments);
    out.append("\"}");
    out
}

/// The canonical object holds name and arguments verbatim: the name begins
/// at offset 9, the arguments 15 characters after the name's end, and two
/// characters close the object.
pub proof fn lemma_canonical_call_holds(name: Seq<char>, arguments: Seq<char>)
    ensures
        ({
            let n = name.len() as int;
            let m = arguments.len() as int;
            let c = canonical_call(name, arguments);
            &&& c.len() == 26 + n + m
            &&& c.subrange(0, 9) == "{\"name\":\""@
            &&& c.subrange(9, 9 + n) == name
            &&& c.subrange(9 + n, 24 + n) == "\",\"arguments\":\""@
            &&& c.subrange(24 + n, 24 + n + m) == arguments
            &&& c.subrange(24 + n + m, 26 + n + m) == "\"}"@
        }),
{
    reveal_strlit("{\"name\":\"");
    reveal_strlit("\",\"arguments\":\"");
    reveal_strlit("\"}");
    let n = name.len() as int;
    let m = arguments.len() as int;
    let c = canonical_call(name, arguments);
    assert(c.subrange(0, 9) =~= "{\"name\":\""@);
    assert(c.subrange(9, 9 + n) =~= name);
    assert(c.subrange(9 + n, 24 + n) =~= "\",\"arguments\":\""@);
    assert(c.subrange(24 + n, 24 + n + m) =~= arguments);
    assert(c.subrange(24 + n + m, 26 + n + m) =~= "\"}"@);
}

/// The groups that hold name and arguments in a match: groups 1 and 2 where
/// both took part, else groups 3 and 4 where both took part.
pub open spec fn captured_call(groups: Seq<Option<Seq<char>>>) -> Option<(Seq<char>, Seq<char>)> {
    if groups.len() == 5 {
        match (groups[1], groups[2], groups[3], groups[4]) {
            (Some(name), Some(arguments), _, _) => Some((name, arguments)),
            (_, _, Some(name), Some(arguments)) => Some((name, arguments)),
            _ => None,
        }
    } else {
        None
    }
}

/// What the strict matcher makes of the groups of a match: the canonical
/// object of the name and arguments that they hold.
pub open spec fn candidate_of_groups(groups: Seq<Option<Seq<char>>>) -> Option<Seq<char>> {
    match captured_call(groups) {
        Some((name, arguments)) => Some(canonical_call(name, arguments)),
        None => None,
    }
}

/// Writes the call that a match captured down again as the canonical
/// object. `groups` holds the text of the five groups of the pattern, the
/// whole match first.
pub fn candidate_from_groups(groups: &Vec<Option<String>>) -> (r: Option<String>)
    ensures
        text_view(r) == candidate_of_groups(groups_view(groups@)),
{
    if groups.len() == 5 {
        match (&groups[1], &groups[2], &groups[3], &groups[4]) {
            (Some(name), Some(arguments), _, _) => Some(
                emit_function_call(name.as_str(), arguments.as_str()),
            ),
            (_, _, Some(name), Some(arguments)) => Some(
                emit_function_call(name.as_str(), arguments.as_str()),
            ),
            _ => None,
        }
    } else {
        None
    }
}

/// What the strict matcher returns for `text`.
pub open spec fn strict_candidate(text: Seq<char>) -> Option<Seq<char>> {
    if regex_compiles(STRICT_PATTERN@) {
        match regex_captures(STRICT_PATTERN@, text) {
            Some(groups) => candidate_of_groups(groups),
            None => None,
        }
    } else {
        None
    }
}

/// What the strict matcher returns is the canonical object of what the
/// pattern captured: wherever it returns an object, the pattern matched,
/// its groups hold a name and arguments, and the object holds both verbatim,
/// the name from offset 9 on and the arguments from 15 characters after the
/// name's end on.
pub proof fn lemma_candidate_holds_captures(text: Seq<char>)
    requires
        strict_candidate(text) is Some,
    ensures
        regex_compiles(STRICT_PATTERN@),
        regex_captures(STRICT_PATTERN@, text) is Some,
        captured_call(regex_captures(STRICT_PATTERN@, text)->0) is Some,
        ({
            let (name, arguments) = captured_call(regex_captures(STRICT_PATTERN@, text)->0)->0;
            let candidate = strict_candidate(text)->0;
            let n = name.len() as int;
            let m = arguments.len() as int;
            &&& candidate == canonical_call(name, arguments)
            &&& candidate.len() == 26 + n + m
            &&& candidate.subrange(9, 9 + n) == name
            &&& candidate.subrange(24 + n, 24 + n + m) == arguments
        }),
{
    let (name, arguments) = captured_call(regex_captures(STRICT_PATTERN@, text)->0)->0;
    lemma_canonical_call_holds(name, arguments);
}

/// Looks for the canonical `function_call` shape in `s`: the leftmost match
/// of `STRICT_PATTERN`. Where there is one, returns the captured name and
/// arguments as the canonical two-key object; where there is none, returns
/// `None`.
pub fn extract_strict_function_call(s: &str) -> (r: Option<String>)
    ensures
        text_view(r) == strict_candidate(s@),
{
    match search(STRICT_PATTERN, s) {
        Ok(Some(groups)) => candidate_from_groups(&groups),
        Ok(None) => None,
        Err(_) => None,
    }
}

} // verus!
