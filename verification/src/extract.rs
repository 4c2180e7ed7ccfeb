//! The extraction pipeline: strict matcher first, boundary scanner second,
//! the text as it came last.

use crate::balance::lemma_region_scans_to_itself;
use crate::json::{json_parses, parses_as_json};
use crate::scanner::{
    find_json_boundaries, first_span, is_opener, lemma_first_span_holds, span_view,
};
use crate::strict::{
    extract_strict_function_call, lemma_candidate_holds_captures, strict_candidate,
};
use crate::text::text_view;
use vstd::prelude::*;

verus! {

/// Which stage of the pipeline produced a payload.
#[derive(Clone, Copy, Debug, PartialEq, Eq, Structural)]
pub enum Provenance {
    /// The strict matcher recognised the canonical shape.
    Strict,
    /// The boundary scanner found a balanced region that is JSON.
    Scanned,
    /// Neither did: the payload is the text as it came.
    Passthrough,
}

/// What the pipeline made of a text.
#[derive(Debug)]
pub struct Extraction {
    pub payload: String,
    pub provenance: Provenance,
}

/// The priority rule over what the two stages found. `candidate` is what the
/// strict matcher wrote down and `region` what the scanner reported, each
/// with the answer to whether it is JSON.
pub open spec fn selection(
    text: Seq<char>,
    candidate: Option<Seq<char>>,
    candidate_parses: bool,
    region: Option<(int, int)>,
    region_parses: bool,
) -> (Seq<char>, Provenance) {
    match (candidate, region) {
        (Some(c), _) if candidate_parses => (c, Provenance::Strict),
        (_, Some((a, b))) if region_parses => (text.subrange(a, b), Provenance::Scanned),
        _ => (text, Provenance::Passthrough),
    }
}

/// Whether the region that the scanner reports for `text` is JSON. `false`
/// where it reports none.
pub open spec fn region_parses(text: Seq<char>) -> bool {
    match first_span(text) {
        Some((a, b)) => json_parses(text.subrange(a, b)),
        None => false,
    }
}

/// Whether the strict matcher's candidate for `text` is JSON. `false` where
/// it has none.
pub open spec fn candidate_parses(text: Seq<char>) -> bool {
    match strict_candidate(text) {
        Some(c) => json_parses(c),
        None => false,
    }
}

/// Payload and provenance that the pipeline gives for `text`.
pub open spec fn extraction_of(text: Seq<char>) -> (Seq<char>, Provenance) {
    selection(
        text,
        strict_candidate(text),
        candidate_parses(text),
        first_span(text),
        region_parses(text),
    )
}

/// `region` lies inside a text of `len` characters.
pub open spec fn region_fits(region: Option<(usize, usize)>, len: nat) -> bool {
    region matches Some((a, b)) ==> a <= b <= len
}

/// Applies the priority rule to what the two stages found: the strict
/// candidate where there is one and it is JSON; else the scanner's region of
/// the text where there is one and it is JSON; else the text unchanged.
pub fn select_extraction(
    text: &str,
    candidate: Option<String>,
    candidate_parses: bool,
    region: Option<(usize, usize)>,
    region_parses: bool,
) -> (r: Extraction)
    requires
        region_fits(region, text@.len()),
    ensures
        (r.payload@, r.provenance) == selection(
            text@,
            text_view(candidate),
            candidate_parses,
            span_view(region),
            region_parses,
        ),
{
    if let Some(c) = candidate {
        if candidate_parses {
            return Extraction { payload: c, provenance: Provenance::Strict };
        }
    }
    if let Some((a, b)) = region {
        if region_parses {
            return Extraction {
                payload: text.substring_char(a, b).to_owned(),
                provenance: Provenance::Scanned,
            };
        }
    }
    Extraction { payload: text.to_owned(), provenance: Provenance::Passthrough }
}

/// Extracts the function-call payload from the text of a model's reply.
///
/// The strict matcher runs first: where it finds the canonical shape and the
/// object it writes down is JSON, that object is the payload, tagged
/// `Strict`. Otherwise the scanner runs: where it reports a region and the
/// region is JSON, the region is the payload, tagged `Scanned`; no other
/// region is tried. Otherwise the payload is the text itself, tagged
/// `Passthrough`.
pub fn extract_function_calls(llm_response: &str) -> (r: Extraction)
    ensures
        (r.payload@, r.provenance) == extraction_of(llm_response@),
        r.provenance != Provenance::Passthrough ==> json_parses(r.payload@),
        r.provenance == Provenance::Passthrough ==> r.payload@ == llm_response@,
{
    let candidate = extract_strict_function_call(llm_response);
    let candidate_ok = match &candidate {
        Some(c) => parses_as_json(c.as_str()),
        None => false,
    };
    let region = if candidate_ok {
        None
    } else {
        find_json_boundaries(llm_response)
    };
    proof {
        lemma_first_span_holds(llm_response@);
    }
    let region_ok = match region {
        Some((a, b)) => parses_as_json(llm_response.substring_char(a, b)),
        None => false,
    };
    select_extraction(llm_response, candidate, candidate_ok, region, region_ok)
}

/// The strict matcher has priority: where its candidate is JSON the payload
/// is that candidate, tagged `Strict`, whatever the scanner would report;
/// and nothing else is ever tagged `Strict`.
pub proof fn lemma_strict_has_priority(text: Seq<char>)
    ensures
        candidate_parses(text) ==> extraction_of(text) == (
            strict_candidate(text)->0,
            Provenance::Strict,
        ),
        extraction_of(text).1 == Provenance::Strict <==> candidate_parses(text),
{
}

/// What was extracted is JSON, and what was passed through is the text.
pub proof fn lemma_extraction_is_sound(text: Seq<char>)
    ensures
        extraction_of(text).1 != Provenance::Passthrough ==> json_parses(extraction_of(text).0),
        extraction_of(text).1 == Provenance::Passthrough ==> extraction_of(text).0 == text,
{
}

/// A scanned payload is a fixed point of the pipeline unless the strict
/// matcher claims it: extracted again, a payload that was tagged `Scanned`
/// is never passed through and never cut down by the scanner. It comes back
/// unchanged and tagged `Scanned`, or the strict matcher finds in it a
/// candidate that is JSON.
pub proof fn lemma_scanned_payload_is_fixed_point(text: Seq<char>)
    requires
        extraction_of(text).1 == Provenance::Scanned,
    ensures
        candidate_parses(extraction_of(text).0) || extraction_of(extraction_of(text).0) == (
            extraction_of(text).0,
            Provenance::Scanned,
        ),
{
    lemma_first_span_holds(text);
    let (a, b) = first_span(text)->0;
    lemma_region_scans_to_itself(text, a, b);
    let payload = text.subrange(a, b);
    assert(payload.subrange(0, b - a) =~= payload);
}

/// A strict payload is a fixed point of the pipeline unless a stage has
/// something else to offer for it: extracted again, a payload that was
/// tagged `Strict` comes back unchanged, or the strict matcher finds in it a
/// candidate that is JSON, or the scanner reports a proper prefix of it that
/// is JSON.
pub proof fn lemma_strict_payload_is_fixed_point(text: Seq<char>)
    requires
        extraction_of(text).1 == Provenance::Strict,
    ensures
        ({
            let payload = extraction_of(text).0;
            ||| extraction_of(payload).0 == payload
            ||| candidate_parses(payload)
            ||| (first_span(payload) matches Some((a, b)) && a == 0 && b < payload.len()
                && json_parses(payload.subrange(0, b)))
        }),
{
    let payload = extraction_of(text).0;
    lemma_candidate_holds_captures(text);
    reveal_strlit("{\"name\":\"");
    assert(payload[0] == '{');
    lemma_first_span_holds(payload);
    assert(payload.subrange(0, payload.len() as int) =~= payload);
    if let Some((a, b)) = first_span(payload) {
        if a > 0 {
            assert(!is_opener(payload[0]));
        }
    }
}

} // verus!
