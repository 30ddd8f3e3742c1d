//! The topic researcher: turning encyclopedia search and summary
//! responses into candidate knowledge documents.
//!
//! The two HTTP fetches are the caller's business; this module parses
//! their JSON bodies behind named trusted bindings and decides, in
//! verified code, which candidates become documents, how their text is
//! truncated, and under what node id and provenance they are stored.

use vstd::prelude::*;

use crate::codecs::{blake3_hex, blake3_hex_of};
use crate::store::{KnowledgeNode, KnowledgeTriple};
use crate::text::{
    collapse_ws, concat_str, trim_ws_str, trimmed_ws, truncate_chars, truncated, to_char_vec,
    chars_to_string,
};

verus! {

/// Characters a research summary is truncated to.
pub const RESEARCH_SUMMARY_LIMIT: usize = 900;

/// Candidate titles requested from the search endpoint.
pub const SEARCH_CANDIDATES: u64 = 5;

/// The titles an opensearch response body lists, or nothing when the body
/// is not JSON.
pub uninterp spec fn opensearch_parse(body: Seq<char>) -> Option<Seq<Seq<char>>>;

/// Relies on serde_json::from_str: the candidate titles are the strings of
/// the array at index 1 of the response array, in order; parsing fails
/// exactly when the body is not JSON. The result depends on the body
/// alone.
#[verifier::external_body]
pub(crate) fn parse_search_titles(body: &str) -> (r: Option<Vec<String>>)
    ensures
        match r {
            Option::Some(v) => opensearch_parse(body@) == Option::Some(v.deep_view()),
            Option::None => opensearch_parse(body@) is None,
        },
{
    let parsed: serde_json::Value = match serde_json::from_str(body) {
        Ok(v) => v,
        Err(_) => return Option::None,
    };
    let titles = match parsed.get(1).and_then(|v| v.as_array()) {
        Some(a) => a.iter().filter_map(|v| v.as_str()).map(|s| s.to_owned()).collect(),
        None => Vec::new(),
    };
    Option::Some(titles)
}

/// The (title, extract, page URL) a summary response body carries, or
/// nothing when the body is not JSON. The title and the page URL are
/// absent when the response has no such field; a missing extract comes
/// back empty.
pub uninterp spec fn summary_parse(body: Seq<char>) -> Option<
    (Option<Seq<char>>, Seq<char>, Option<Seq<char>>),
>;

/// Relies on serde_json::from_str: the `title` string when present, the
/// `extract` string (empty when missing) and the
/// `content_urls.desktop.page` string when present; parsing fails exactly
/// when the body is not JSON. The result depends on the body alone.
#[verifier::external_body]
pub(crate) fn parse_wiki_summary(body: &str) -> (r: Option<
    (Option<String>, String, Option<String>),
>)
    ensures
        match r {
            Option::Some(t) => summary_parse(body@) == Option::Some(
                (
                    match t.0 {
                        Option::Some(s) => Option::Some(s@),
                        Option::None => Option::None,
                    },
                    t.1@,
                    match t.2 {
                        Option::Some(u) => Option::Some(u@),
                        Option::None => Option::None,
                    },
                ),
            ),
            Option::None => summary_parse(body@) is None,
        },
{
    let parsed: serde_json::Value = match serde_json::from_str(body) {
        Ok(v) => v,
        Err(_) => return Option::None,
    };
    let title = parsed.get("title").and_then(|v| v.as_str()).map(|s| s.to_owned());
    let extract = parsed.get("extract").and_then(|v| v.as_str()).unwrap_or("").to_owned();
    let page = parsed
        .get("content_urls")
        .and_then(|v| v.get("desktop"))
        .and_then(|v| v.get("page"))
        .and_then(|v| v.as_str())
        .map(|s| s.to_owned());
    Option::Some((title, extract, page))
}

/// The candidate titles of a search response, or the researcher's error
/// when the body does not parse: a search-parse failure fails the whole
/// topic.
pub fn search_titles(body: &str) -> (r: Result<Vec<String>, String>)
    ensures
        match r {
            Result::Ok(v) => opensearch_parse(body@) == Option::Some(v.deep_view()),
            Result::Err(e) => opensearch_parse(body@) is None && e@
                == "wikipedia search parse failed"@,
        },
{
    match parse_search_titles(body) {
        Option::Some(v) => Result::Ok(v),
        Option::None => Result::Err("wikipedia search parse failed".to_owned()),
    }
}

/// One researched document ready for storage.
pub struct ExternalLearningDoc {
    pub title: String,
    pub url: String,
    pub summary: String,
    pub topic: String,
}

/// `s` with spaces replaced by underscores.
pub open spec fn underscored(s: Seq<char>) -> Seq<char> {
    s.map_values(
        |c: char|
            if c == ' ' {
                '_'
            } else {
                c
            },
    )
}

/// Replaces each space with an underscore.
pub fn underscore_spaces(s: &str) -> (r: String)
    ensures
        r@ == underscored(s@),
{
    let v = to_char_vec(s);
    let mut out: Vec<char> = Vec::new();
    let mut i: usize = 0;
    while i < v.len()
        invariant
            i <= v@.len(),
            v@ == s@,
            out@ == underscored(s@.subrange(0, i as int)),
        decreases v@.len() - i,
    {
        if v[i] == ' ' {
            out.push('_');
        } else {
            out.push(v[i]);
        }
        i = i + 1;
        proof {
            assert(out@ =~= underscored(s@.subrange(0, i as int)));
        }
    }
    proof {
        assert(out@ =~= underscored(s@));
    }
    chars_to_string(&out)
}

/// The resolved title of a candidate: the response's title field when the
/// response carries one — even a blank one — else the candidate's own
/// title; trimmed. A title that trims to nothing skips the candidate.
pub open spec fn resolved_title(candidate: Seq<char>, response_title: Option<Seq<char>>) -> Seq<
    char,
> {
    match response_title {
        Option::Some(t) => trimmed_ws(t),
        Option::None => trimmed_ws(candidate),
    }
}

/// The page URL of a document: the response's canonical URL when present,
/// else one synthesized from the title.
pub open spec fn resolved_url(title: Seq<char>, page_url: Option<Seq<char>>) -> Seq<char> {
    match page_url {
        Option::Some(u) => u,
        Option::None => "https://en.wikipedia.org/wiki/"@ + underscored(title),
    }
}

/// Decides whether one summary response yields a document, and builds it:
/// the candidate is skipped (`None`) exactly when the resolved title —
/// the response's title field when it carries one, else the candidate's
/// own — trims to nothing, or the whitespace-collapsed extract is empty;
/// otherwise the document carries the resolved title, the resolved URL,
/// the extract truncated to `RESEARCH_SUMMARY_LIMIT` characters, and the
/// topic.
pub fn build_research_doc(
    topic: &str,
    candidate_title: &str,
    response_title: Option<String>,
    extract: &str,
    page_url: Option<String>,
) -> (r: Option<ExternalLearningDoc>)
    ensures
        ({
            let title = resolved_title(
                candidate_title@,
                match response_title {
                    Option::Some(t) => Option::Some(t@),
                    Option::None => Option::None,
                },
            );
            let text = collapse_ws(extract@);
            &&& (r is Some <==> title.len() > 0 && text.len() > 0)
            &&& r matches Option::Some(d) ==> {
                &&& d.title@ == title
                &&& d.url@ == resolved_url(
                    title,
                    match page_url {
                        Option::Some(u) => Option::Some(u@),
                        Option::None => Option::None,
                    },
                )
                &&& d.summary@ == truncated(text, RESEARCH_SUMMARY_LIMIT as int)
                &&& d.topic@ == topic@
            }
        }),
{
    let title = match &response_title {
        Option::Some(t) => trim_ws_str(t.as_str()),
        Option::None => trim_ws_str(candidate_title),
    };
    let text = crate::text::normalize_whitespace(extract);
    if title.as_str().unicode_len() == 0 || text.as_str().unicode_len() == 0 {
        return Option::None;
    }
    let url = match page_url {
        Option::Some(u) => u,
        Option::None => {
            let tail = underscore_spaces(title.as_str());
            concat_str("https://en.wikipedia.org/wiki/", tail.as_str())
        },
    };
    Option::Some(
        ExternalLearningDoc {
            title,
            url,
            summary: truncate_chars(text.as_str(), RESEARCH_SUMMARY_LIMIT),
            topic: topic.to_owned(),
        },
    )
}

/// Turns one candidate's summary response into a document: the body is
/// parsed, and the candidate is accepted per `build_research_doc`.
/// Nothing when the body does not parse or the candidate is skipped.
pub fn candidate_doc(topic: &str, candidate_title: &str, summary_body: &str) -> (r: Option<
    ExternalLearningDoc,
>)
    ensures
        summary_parse(summary_body@) is None ==> r is None,
        summary_parse(summary_body@) matches Option::Some(p) ==> {
            let title = resolved_title(candidate_title@, p.0);
            let text = collapse_ws(p.1);
            &&& (r is Some <==> title.len() > 0 && text.len() > 0)
            &&& r matches Option::Some(d) ==> {
                &&& d.title@ == title
                &&& d.url@ == resolved_url(title, p.2)
                &&& d.summary@ == truncated(text, RESEARCH_SUMMARY_LIMIT as int)
                &&& d.topic@ == topic@
            }
        },
{
    match parse_wiki_summary(summary_body) {
        Option::None => Option::None,
        Option::Some((resolved, extract, page)) => build_research_doc(
            topic,
            candidate_title,
            resolved,
            extract.as_str(),
            page,
        ),
    }
}

/// The node id of a researched document: a `train:` prefix on the content
/// digest of the trimmed URL.
pub open spec fn spec_research_node_id(url: Seq<char>) -> Seq<char> {
    "train:"@ + blake3_hex_of(trimmed_ws(url))
}

/// The content-addressed node id of a researched document.
pub fn research_node_id(url: &str) -> (r: String)
    ensures
        r@ == spec_research_node_id(url@),
{
    let trimmed = trim_ws_str(url);
    let digest = blake3_hex(trimmed.as_str());
    concat_str("train:", digest.as_str())
}

/// The payload stored with a researched document.
pub open spec fn research_payload(d: ExternalLearningDoc, now: Seq<char>) -> Seq<char> {
    "research topic="@ + d.topic@ + " url="@ + d.url@ + " title="@ + d.title@ + " at="@ + now
}

/// Builds the stored node and provenance triple of one researched
/// document: the node is keyed by the trimmed URL's digest so that
/// re-researching the same page overwrites; the triple records
/// `(topic, researched_from, url)` at confidence 0.82.
pub fn research_node(d: &ExternalLearningDoc, now: &str) -> (r: (KnowledgeNode, KnowledgeTriple))
    ensures
        r.0.id@ == spec_research_node_id(d.url@),
        r.0.label@ == d.title@,
        r.0.summary@ == d.summary@,
        r.0.payload@ == research_payload(*d, now@),
        r.0.created_at@ == now@,
        r.1.subject@ == d.topic@,
        r.1.predicate@ == "researched_from"@,
        r.1.object@ == d.url@,
        r.1.confidence_centi == 82u64,
        r.1.created_at@ == now@,
{
    let mut payload = String::new();
    payload.append("research topic=");
    payload.append(d.topic.as_str());
    payload.append(" url=");
    payload.append(d.url.as_str());
    payload.append(" title=");
    payload.append(d.title.as_str());
    payload.append(" at=");
    payload.append(now);
    let node = KnowledgeNode {
        id: research_node_id(d.url.as_str()),
        label: d.title.clone(),
        summary: d.summary.clone(),
        payload,
        created_at: now.to_owned(),
    };
    let triple = KnowledgeTriple {
        subject: d.topic.clone(),
        predicate: "researched_from".to_owned(),
        object: d.url.clone(),
        confidence_centi: 82,
        created_at: now.to_owned(),
    };
    (node, triple)
}

} // verus!
