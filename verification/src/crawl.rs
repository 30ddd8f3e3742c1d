//! The bounded same-host breadth-first crawler.
//!
//! The crawler holds a FIFO queue of normalized URLs with their depth and a
//! visited set keyed by the normalized form. Fetching is not done here: the
//! caller dequeues a target, fetches the document itself, and hands the raw
//! HTML back. Per crawl at most `MAX_PAGES` distinct pages are ever queued,
//! and at most `MAX_LINKS_PER_PAGE` outbound links are followed from one
//! page; only links on the root host are ever enqueued.

use vstd::prelude::*;

use crate::codecs::{blake3_hex, blake3_hex_of};
use crate::html::{extract_body_text, extract_links, extract_title, html_body_text, html_links, html_title};
use crate::store::{KnowledgeNode, KnowledgeTriple};
use crate::text::{
    collapse_ws, concat_str, lower_str, normalize_whitespace, starts_with, str_eq,
    str_starts_with, to_lower, truncate_chars, truncated,
};
use crate::url::{normalized_url, parse_url, render_normalized, spec_normalize, spec_parse_url};

verus! {

/// Hard ceiling on distinct pages per crawl.
pub const MAX_PAGES: usize = 25;

/// Most outbound links followed from a single page.
pub const MAX_LINKS_PER_PAGE: usize = 20;

/// Characters a stored title is truncated to.
pub const TITLE_LIMIT: usize = 140;

/// Characters a stored summary is truncated to.
pub const SUMMARY_LIMIT: usize = 800;

/// Characters of body text kept as the payload excerpt.
pub const EXCERPT_LIMIT: usize = 5000;

/// Characters of a URL kept in a provenance triple.
pub const TRIPLE_URL_LIMIT: usize = 200;

/// Rejection of a crawl request before any work is done.
#[derive(Clone, Copy, PartialEq, Eq, Structural, Debug)]
pub enum InputError {
    /// The start URL does not parse, or its scheme is not http or https.
    InvalidUrl,
    /// The depth limit is outside 1 through 3.
    InvalidDepth,
}

/// A preview of one stored node, reported in the crawl summary.
pub struct NodePreview {
    pub node_id: String,
    pub label: String,
    pub summary: String,
    pub source_url: String,
}

impl NodePreview {
    /// A copy equal to this preview.
    pub fn duplicate(&self) -> (r: NodePreview)
        ensures
            r == *self,
    {
        NodePreview {
            node_id: self.node_id.clone(),
            label: self.label.clone(),
            summary: self.summary.clone(),
            source_url: self.source_url.clone(),
        }
    }
}

/// The outcome of one crawl.
pub struct CrawlSummary {
    pub start_url: String,
    pub max_depth: u8,
    pub pages_visited: usize,
    pub pages_stored: usize,
    pub links_followed: usize,
    pub stored_nodes: Vec<NodePreview>,
}

/// An href the crawler never follows: an in-page anchor or a mailto,
/// javascript or tel target.
pub open spec fn excluded_href(h: Seq<char>) -> bool {
    ||| starts_with(h, "#"@)
    ||| starts_with(to_lower(h), "mailto:"@)
    ||| starts_with(to_lower(h), "javascript:"@)
    ||| starts_with(to_lower(h), "tel:"@)
}

/// The normalized form under which a link is followed: the href must not be
/// excluded, must parse, must be http or https, and its host must equal the
/// root host exactly.
pub open spec fn accept_link(h: Seq<char>, root_host: Seq<char>) -> Option<Seq<char>> {
    if excluded_href(h) {
        Option::None
    } else {
        match spec_parse_url(h) {
            Option::None => Option::None,
            Option::Some(u) => {
                let sch = to_lower(u.scheme);
                if (sch == "http"@ || sch == "https"@) && to_lower(u.host) == root_host {
                    Option::Some(normalized_url(u))
                } else {
                    Option::None
                }
            },
        }
    }
}

/// State of link discovery over one page after the first `k` hrefs: the
/// visited set, the URLs newly added, and the links followed so far.
pub struct DiscoverView {
    pub visited: Seq<Seq<char>>,
    pub added: Seq<Seq<char>>,
    pub links: int,
}

/// Folds the link-acceptance rule over the first `k` hrefs of a page:
/// an accepted link is followed when the per-page cap and the page ceiling
/// are not yet reached and its normalized form was not seen before.
pub open spec fn discover_go(
    hrefs: Seq<Seq<char>>,
    k: int,
    root_host: Seq<char>,
    visited0: Seq<Seq<char>>,
) -> DiscoverView
    decreases k,
{
    if k <= 0 {
        DiscoverView { visited: visited0, added: Seq::empty(), links: 0 }
    } else {
        let st = discover_go(hrefs, k - 1, root_host, visited0);
        match accept_link(hrefs[k - 1], root_host) {
            Option::None => st,
            Option::Some(u) => {
                if st.links >= MAX_LINKS_PER_PAGE || st.visited.len() >= MAX_PAGES
                    || st.visited.contains(u) {
                    st
                } else {
                    DiscoverView {
                        visited: st.visited.push(u),
                        added: st.added.push(u),
                        links: st.links + 1,
                    }
                }
            },
        }
    }
}

/// Pairwise-distinct sequences.
pub open spec fn unique_strs(s: Seq<Seq<char>>) -> bool {
    forall|i: int, j: int| 0 <= i < j < s.len() ==> s[i] != s[j]
}

/// Discovery follows at most `MAX_LINKS_PER_PAGE` links, extends the
/// visited set by exactly the added URLs, stays under the page ceiling,
/// and keeps the visited set duplicate-free.
pub proof fn lemma_discover_props(
    hrefs: Seq<Seq<char>>,
    k: int,
    root_host: Seq<char>,
    visited0: Seq<Seq<char>>,
)
    ensures
        discover_go(hrefs, k, root_host, visited0).links <= MAX_LINKS_PER_PAGE,
        0 <= discover_go(hrefs, k, root_host, visited0).links,
        discover_go(hrefs, k, root_host, visited0).visited == visited0 + discover_go(
            hrefs,
            k,
            root_host,
            visited0,
        ).added,
        visited0.len() <= MAX_PAGES ==> discover_go(hrefs, k, root_host, visited0).visited.len()
            <= MAX_PAGES,
        unique_strs(visited0) ==> unique_strs(discover_go(hrefs, k, root_host, visited0).visited),
    decreases k,
{
    if k <= 0 {
        assert(discover_go(hrefs, k, root_host, visited0).visited =~= visited0 + Seq::empty());
    } else {
        lemma_discover_props(hrefs, k - 1, root_host, visited0);
        let st = discover_go(hrefs, k - 1, root_host, visited0);
        let cur = discover_go(hrefs, k, root_host, visited0);
        match accept_link(hrefs[k - 1], root_host) {
            Option::None => {},
            Option::Some(u) => {
                if st.links >= MAX_LINKS_PER_PAGE || st.visited.len() >= MAX_PAGES
                    || st.visited.contains(u) {
                } else {
                    assert(cur.visited =~= visited0 + cur.added);
                    if unique_strs(visited0) {
                        assert forall|i: int, j: int|
                            0 <= i < j < cur.visited.len() implies cur.visited[i]
                            != cur.visited[j] by {
                            if j < st.visited.len() {
                                assert(cur.visited[i] == st.visited[i]);
                                assert(cur.visited[j] == st.visited[j]);
                            } else {
                                assert(cur.visited[j] == u);
                                assert(cur.visited[i] == st.visited[i]);
                                if st.visited[i] == u {
                                    assert(st.visited.contains(u));
                                }
                            }
                        }
                    }
                }
            },
        }
    }
}

/// A link whose host differs from the crawl's root host is never accepted,
/// so it is never enqueued and never visited.
pub proof fn lemma_host_containment(h: Seq<char>, root_host: Seq<char>)
    requires
        spec_parse_url(h) is Some ==> to_lower(spec_parse_url(h)->Some_0.host) != root_host,
    ensures
        accept_link(h, root_host) is None,
{
}

/// Crawling the same URL twice with the same depth yields the same node
/// id both times, and the second upsert overwrites rather than
/// duplicates: the store after both writes is the store after the second
/// alone, no larger than after the first.
pub proof fn lemma_crawl_idempotent(
    url: Seq<char>,
    nodes: Seq<crate::store::KnowledgeNode>,
    n1: crate::store::KnowledgeNode,
    n2: crate::store::KnowledgeNode,
)
    requires
        n1.id@ == blake3_hex_of(url),
        n2.id@ == blake3_hex_of(url),
    ensures
        n1.id@ == n2.id@,
        crate::store::upserted_nodes(crate::store::upserted_nodes(nodes, n1), n2)
            == crate::store::upserted_nodes(nodes, n2),
        crate::store::upserted_nodes(crate::store::upserted_nodes(nodes, n1), n2).len()
            == crate::store::upserted_nodes(nodes, n1).len(),
{
    crate::store::lemma_upsert_overwrites(nodes, n1, n2);
}

/// The label stored for a page: its collapsed title text, or the page URL
/// when there is no title or it collapses to nothing, truncated to
/// `TITLE_LIMIT` characters.
pub open spec fn page_label(doc: Seq<char>, url: Seq<char>) -> Seq<char> {
    let t = match html_title(doc) {
        Option::Some(t) => collapse_ws(t),
        Option::None => Seq::empty(),
    };
    if t.len() > 0 {
        truncated(t, TITLE_LIMIT as int)
    } else {
        truncated(url, TITLE_LIMIT as int)
    }
}

/// The summary stored for a page: its collapsed body text truncated to
/// `SUMMARY_LIMIT` characters, or a synthetic marker when the body text
/// collapses to nothing.
pub open spec fn page_summary(doc: Seq<char>, url: Seq<char>) -> Seq<char> {
    let t = collapse_ws(html_body_text(doc));
    if t.len() == 0 {
        "Crawled "@ + url
    } else {
        truncated(t, SUMMARY_LIMIT as int)
    }
}

/// The digit character of a crawl depth (at most 9).
pub open spec fn depth_char(d: u8) -> char
    recommends
        d <= 9,
{
    (('0' as u8) + d) as char
}

/// The payload stored with a crawled page: origin kind, URL, depth,
/// timestamp, and an excerpt of the collapsed body text.
pub open spec fn page_payload(doc: Seq<char>, url: Seq<char>, depth: u8, now: Seq<char>) -> Seq<
    char,
> {
    "crawl depth="@ + seq![depth_char(depth)] + " url="@ + url + " at="@ + now + " excerpt="@
        + truncated(collapse_ws(html_body_text(doc)), EXCERPT_LIMIT as int)
}

/// The bounded breadth-first crawl state.
pub struct CrawlState {
    /// The normalized start URL.
    pub start_url: String,
    /// Lower-cased host of the start URL; the only host ever followed.
    pub root_host: String,
    pub depth_limit: u8,
    /// FIFO of normalized URLs with their depth; the front is next.
    pub queue: Vec<(String, u8)>,
    /// Normalized URLs ever queued; pairwise distinct, at most `MAX_PAGES`.
    pub visited: Vec<String>,
    pub pages_visited: usize,
    pub pages_stored: usize,
    pub links_followed: usize,
    pub stored_nodes: Vec<NodePreview>,
}

impl CrawlState {
    /// The visited set as character sequences.
    pub open spec fn visited_view(&self) -> Seq<Seq<char>> {
        self.visited.deep_view()
    }

    /// Structural invariant: the visited set is duplicate-free and under
    /// the page ceiling; the queue never outruns the visited set; counters
    /// stay consistent with what was recorded.
    pub open spec fn wf(&self) -> bool {
        &&& self.visited_view().len() <= MAX_PAGES
        &&& unique_strs(self.visited_view())
        &&& self.pages_visited + self.queue@.len() <= self.visited_view().len()
        &&& self.pages_stored <= self.pages_visited
        &&& self.stored_nodes@.len() == self.pages_stored
        &&& self.links_followed <= MAX_LINKS_PER_PAGE * self.pages_stored
        &&& 1 <= self.depth_limit <= 3
    }

    /// Starts a crawl. Fails with `InvalidDepth` when the depth limit is
    /// outside 1 through 3, and with `InvalidUrl` exactly when the start
    /// URL does not normalize (it does not parse, or its scheme is neither
    /// http nor https). On success the queue holds the normalized start at
    /// depth 0, already marked visited.
    pub fn new(start_url: &str, depth_limit: u8) -> (r: Result<CrawlState, InputError>)
        ensures
            !(1 <= depth_limit <= 3) ==> r == Result::<CrawlState, InputError>::Err(
                InputError::InvalidDepth,
            ),
            1 <= depth_limit <= 3 && spec_normalize(start_url@) is None ==> r == Result::<
                CrawlState,
                InputError,
            >::Err(InputError::InvalidUrl),
            1 <= depth_limit <= 3 && spec_normalize(start_url@) is Some ==> r is Ok && {
                let st = r->Ok_0;
                &&& st.wf()
                &&& st.start_url@ == spec_normalize(start_url@)->Some_0
                &&& st.root_host@ == to_lower(spec_parse_url(start_url@)->Some_0.host)
                &&& st.depth_limit == depth_limit
                &&& st.queue@.len() == 1
                &&& st.queue@[0].0@ == spec_normalize(start_url@)->Some_0
                &&& st.queue@[0].1 == 0u8
                &&& st.visited_view() == seq![spec_normalize(start_url@)->Some_0]
                &&& st.pages_visited == 0
                &&& st.pages_stored == 0
                &&& st.links_followed == 0
                &&& st.stored_nodes@.len() == 0
            },
    {
        if !(1 <= depth_limit && depth_limit <= 3) {
            return Result::Err(InputError::InvalidDepth);
        }
        match parse_url(start_url) {
            Option::None => Result::Err(InputError::InvalidUrl),
            Option::Some(u) => {
                let sch = lower_str(u.scheme.as_str());
                if !(str_eq(sch.as_str(), "http") || str_eq(sch.as_str(), "https")) {
                    return Result::Err(InputError::InvalidUrl);
                }
                let norm = render_normalized(&u);
                let root_host = lower_str(u.host.as_str());
                let mut queue: Vec<(String, u8)> = Vec::new();
                queue.push((norm.clone(), 0u8));
                let mut visited: Vec<String> = Vec::new();
                visited.push(norm.clone());
                let st = CrawlState {
                    start_url: norm,
                    root_host,
                    depth_limit,
                    queue,
                    visited,
                    pages_visited: 0,
                    pages_stored: 0,
                    links_followed: 0,
                    stored_nodes: Vec::new(),
                };
                proof {
                    assert(st.visited_view() =~= seq![spec_normalize(start_url@)->Some_0]);
                }
                Result::Ok(st)
            },
        }
    }

    /// Takes the next page to fetch, oldest first, counting it as visited.
    /// Returns nothing exactly when the queue is empty. The total of
    /// distinct visited pages never passes `MAX_PAGES`.
    pub fn next_target(&mut self) -> (r: Option<(String, u8)>)
        requires
            old(self).wf(),
        ensures
            final(self).wf(),
            final(self).pages_visited <= MAX_PAGES,
            old(self).queue@.len() == 0 ==> r is None && *final(self) == *old(self),
            old(self).queue@.len() > 0 ==> {
                &&& r is Some
                &&& r->Some_0 == old(self).queue@[0]
                &&& final(self).queue@ == old(self).queue@.skip(1)
                &&& final(self).pages_visited == old(self).pages_visited + 1
                &&& final(self).visited == old(self).visited
                &&& final(self).pages_stored == old(self).pages_stored
                &&& final(self).links_followed == old(self).links_followed
                &&& final(self).stored_nodes == old(self).stored_nodes
                &&& final(self).start_url == old(self).start_url
                &&& final(self).root_host == old(self).root_host
                &&& final(self).depth_limit == old(self).depth_limit
            },
    {
        if self.queue.len() == 0 {
            return Option::None;
        }
        let entry = self.queue.remove(0);
        self.pages_visited = self.pages_visited + 1;
        Option::Some(entry)
    }

    /// Records one fetched page: stores its node and provenance triple data,
    /// and when the page is above the depth limit discovers same-host
    /// outbound links, following at most `MAX_LINKS_PER_PAGE` of them.
    ///
    /// `url` must be the normalized URL handed out by `next_target`, and at
    /// most one page may be recorded per dequeued target.
    #[verifier::rlimit(30)]
    pub fn record_page(&mut self, url: &str, depth: u8, doc: &str, now: &str) -> (r: (
        KnowledgeNode,
        KnowledgeTriple,
    ))
        requires
            old(self).wf(),
            old(self).pages_stored < old(self).pages_visited,
            depth <= 3,
        ensures
            final(self).wf(),
            ({
                let node = r.0;
                &&& node.id@ == blake3_hex_of(url@)
                &&& node.label@ == page_label(doc@, url@)
                &&& node.summary@ == page_summary(doc@, url@)
                &&& node.payload@ == page_payload(doc@, url@, depth, now@)
                &&& node.created_at@ == now@
            }),
            ({
                let t = r.1;
                &&& t.subject@ == page_label(doc@, url@)
                &&& t.predicate@ == "source_url"@
                &&& t.object@ == truncated(url@, TRIPLE_URL_LIMIT as int)
                &&& t.confidence_centi == 90u64
                &&& t.created_at@ == now@
            }),
            final(self).pages_stored == old(self).pages_stored + 1,
            final(self).stored_nodes@.len() == old(self).stored_nodes@.len() + 1,
            ({
                let p = final(self).stored_nodes@[old(self).stored_nodes@.len() as int];
                &&& p.node_id@ == blake3_hex_of(url@)
                &&& p.label@ == page_label(doc@, url@)
                &&& p.summary@ == page_summary(doc@, url@)
                &&& p.source_url@ == url@
            }),
            final(self).links_followed - old(self).links_followed <= MAX_LINKS_PER_PAGE,
            depth < old(self).depth_limit ==> {
                let st = discover_go(
                    html_links(doc@),
                    html_links(doc@).len() as int,
                    old(self).root_host@,
                    old(self).visited_view(),
                );
                &&& final(self).visited_view() == st.visited
                &&& final(self).links_followed == old(self).links_followed + st.links
                &&& final(self).queue@.len() == old(self).queue@.len() + st.added.len()
                &&& (forall|i: int|
                    0 <= i < old(self).queue@.len() ==> final(self).queue@[i] == old(
                        self,
                    ).queue@[i])
                &&& (forall|j: int|
                    0 <= j < st.added.len() ==> final(self).queue@[old(self).queue@.len() + j].0@
                        == st.added[j] && final(self).queue@[old(self).queue@.len() + j].1 == depth
                        + 1)
            },
            depth >= old(self).depth_limit ==> {
                &&& final(self).visited == old(self).visited
                &&& final(self).queue == old(self).queue
                &&& final(self).links_followed == old(self).links_followed
            },
            final(self).pages_visited == old(self).pages_visited,
            final(self).start_url == old(self).start_url,
            final(self).root_host == old(self).root_host,
            final(self).depth_limit == old(self).depth_limit,
    {
        let label = page_label_x(doc, url);
        let summary = page_summary_x(doc, url);
        let excerpt_src = extract_body_text(doc);
        let collapsed = normalize_whitespace(excerpt_src.as_str());
        let excerpt = truncate_chars(collapsed.as_str(), EXCERPT_LIMIT);
        let node_id = blake3_hex(url);

        let mut payload = String::new();
        payload.append("crawl depth=");
        crate::text::push_char(&mut payload, depth_digit(depth));
        payload.append(" url=");
        payload.append(url);
        payload.append(" at=");
        payload.append(now);
        payload.append(" excerpt=");
        payload.append(excerpt.as_str());

        let node = KnowledgeNode {
            id: node_id.clone(),
            label: label.clone(),
            summary: summary.clone(),
            payload,
            created_at: now.to_owned(),
        };
        let triple = KnowledgeTriple {
            subject: label.clone(),
            predicate: "source_url".to_owned(),
            object: truncate_chars(url, TRIPLE_URL_LIMIT),
            confidence_centi: 90,
            created_at: now.to_owned(),
        };
        self.stored_nodes.push(
            NodePreview {
                node_id: node_id.clone(),
                label: label.clone(),
                summary: summary.clone(),
                source_url: url.to_owned(),
            },
        );
        self.pages_stored = self.pages_stored + 1;

        if depth < self.depth_limit {
            let hrefs = extract_links(doc);
            let ghost hv = hrefs.deep_view();
            let ghost v0 = self.visited.deep_view();
            let ghost q0 = self.queue@;
            let ghost snap_nodes = self.stored_nodes@;
            let mut page_links: usize = 0;
            let mut k: usize = 0;
            proof {
                lemma_discover_props(hv, hv.len() as int, self.root_host@, v0);
            }
            while k < hrefs.len()
                invariant
                    k <= hv.len(),
                    hrefs.deep_view() == hv,
                    v0.len() <= MAX_PAGES,
                    unique_strs(v0),
                    ({
                        let st = discover_go(hv, k as int, self.root_host@, v0);
                        &&& self.visited.deep_view() == st.visited
                        &&& page_links == st.links
                        &&& self.queue@.len() == q0.len() + st.added.len()
                        &&& (forall|i: int| 0 <= i < q0.len() ==> self.queue@[i] == q0[i])
                        &&& (forall|j: int|
                            0 <= j < st.added.len() ==> (#[trigger] st.added[j])
                                == self.queue@[q0.len() + j].0@ && self.queue@[q0.len() + j].1
                                == depth + 1)
                    }),
                    page_links <= MAX_LINKS_PER_PAGE,
                    self.visited.deep_view().len() <= MAX_PAGES,
                    depth < self.depth_limit,
                    self.depth_limit == old(self).depth_limit,
                    self.root_host == old(self).root_host,
                    self.start_url == old(self).start_url,
                    self.pages_visited == old(self).pages_visited,
                    self.pages_stored == old(self).pages_stored + 1,
                    self.links_followed == old(self).links_followed,
                    self.stored_nodes@ == snap_nodes,
                decreases hv.len() - k,
            {
                let ghost st_pre = discover_go(hv, k as int, self.root_host@, v0);
                let href = &hrefs[k];
                let acc = accept_link_x(href.as_str(), self.root_host.as_str());
                proof {
                    assert(hv[k as int] == hrefs@[k as int]@);
                }
                match acc {
                    Option::None => {
                        proof {
                            assert(discover_go(hv, k + 1, self.root_host@, v0) == st_pre);
                        }
                    },
                    Option::Some(u) => {
                        let blocked = !(page_links < MAX_LINKS_PER_PAGE && self.visited.len()
                            < MAX_PAGES && !contains_string(&self.visited, u.as_str()));
                        if !blocked {
                            let ghost qs = self.queue@;
                            self.visited.push(u.clone());
                            self.queue.push((u, depth + 1));
                            page_links = page_links + 1;
                            proof {
                                let st = discover_go(hv, k + 1, self.root_host@, v0);
                                assert(st.visited == st_pre.visited.push(u@));
                                assert(self.visited.deep_view() =~~= st.visited);
                                assert(st.added =~~= st_pre.added.push(st.visited.last()));
                                assert forall|j: int| 0 <= j < st.added.len() implies (
                                #[trigger] st.added[j]) == self.queue@[q0.len() + j].0@
                                    && self.queue@[q0.len() + j].1 == depth + 1 by {
                                    if j < st_pre.added.len() {
                                        assert(self.queue@[q0.len() + j] == qs[q0.len() + j]);
                                        assert(st_pre.added[j] == qs[q0.len() + j].0@);
                                        assert(qs[q0.len() + j].1 == depth + 1);
                                        assert(st.added[j] == st_pre.added[j]);
                                    } else {
                                        assert(j == st_pre.added.len());
                                        assert(self.queue@[q0.len() + j] == self.queue@.last());
                                        assert(st.added[j] == u@);
                                    }
                                }
                            }
                        } else {
                            proof {
                                assert(self.visited.deep_view().len() == self.visited@.len());
                                assert(discover_go(hv, k + 1, self.root_host@, v0) == st_pre);
                            }
                        }
                    },
                }
                k = k + 1;
                proof {
                    let st = discover_go(hv, k as int, self.root_host@, v0);
                    assert(self.visited.deep_view() == st.visited);
                    assert(page_links == st.links);
                    assert(self.queue@.len() == q0.len() + st.added.len());
                    assert(forall|i: int| 0 <= i < q0.len() ==> self.queue@[i] == q0[i]);
                    assert(forall|j: int|
                        0 <= j < st.added.len() ==> (#[trigger] st.added[j]) == self.queue@[q0.len()
                            + j].0@ && self.queue@[q0.len() + j].1 == depth + 1);
                }
            }
            proof {
                lemma_discover_props(hv, hv.len() as int, self.root_host@, v0);
            }
            self.links_followed = self.links_followed + page_links;
        }
        (node, triple)
    }

    /// The outcome so far.
    pub fn summary(&self) -> (r: CrawlSummary)
        ensures
            r.start_url == self.start_url,
            r.max_depth == self.depth_limit,
            r.pages_visited == self.pages_visited,
            r.pages_stored == self.pages_stored,
            r.links_followed == self.links_followed,
            r.stored_nodes@ == self.stored_nodes@,
    {
        let mut previews: Vec<NodePreview> = Vec::new();
        let mut i: usize = 0;
        while i < self.stored_nodes.len()
            invariant
                i <= self.stored_nodes@.len(),
                previews@ == self.stored_nodes@.subrange(0, i as int),
            decreases self.stored_nodes@.len() - i,
        {
            previews.push(self.stored_nodes[i].duplicate());
            i = i + 1;
            proof {
                assert(previews@ =~= self.stored_nodes@.subrange(0, i as int));
            }
        }
        proof {
            assert(previews@ =~= self.stored_nodes@);
        }
        CrawlSummary {
            start_url: self.start_url.clone(),
            max_depth: self.depth_limit,
            pages_visited: self.pages_visited,
            pages_stored: self.pages_stored,
            links_followed: self.links_followed,
            stored_nodes: previews,
        }
    }
}

/// The digit character of a small depth.
pub fn depth_digit(d: u8) -> (r: char)
    requires
        d <= 9,
    ensures
        r == depth_char(d),
{
    (('0' as u8) + d) as char
}

/// The label of a page, per `page_label`.
pub fn page_label_x(doc: &str, url: &str) -> (r: String)
    ensures
        r@ == page_label(doc@, url@),
{
    match extract_title(doc) {
        Option::Some(t) => {
            let c = normalize_whitespace(t.as_str());
            if c.as_str().unicode_len() > 0 {
                truncate_chars(c.as_str(), TITLE_LIMIT)
            } else {
                truncate_chars(url, TITLE_LIMIT)
            }
        },
        Option::None => truncate_chars(url, TITLE_LIMIT),
    }
}

/// The summary of a page, per `page_summary`.
pub fn page_summary_x(doc: &str, url: &str) -> (r: String)
    ensures
        r@ == page_summary(doc@, url@),
{
    let t = extract_body_text(doc);
    let c = normalize_whitespace(t.as_str());
    if c.as_str().unicode_len() == 0 {
        concat_str("Crawled ", url)
    } else {
        truncate_chars(c.as_str(), SUMMARY_LIMIT)
    }
}

/// Whether the vector holds the given string.
pub fn contains_string(v: &Vec<String>, s: &str) -> (r: bool)
    ensures
        r == v.deep_view().contains(s@),
{
    let mut i: usize = 0;
    while i < v.len()
        invariant
            i <= v@.len(),
            forall|k: int| 0 <= k < i ==> v.deep_view()[k] != s@,
        decreases v@.len() - i,
    {
        if str_eq(v[i].as_str(), s) {
            proof {
                assert(v.deep_view()[i as int] == s@);
            }
            return true;
        }
        i = i + 1;
    }
    proof {
        if v.deep_view().contains(s@) {
            let k = choose|k: int| 0 <= k < v.deep_view().len() && v.deep_view()[k] == s@;
            assert(false);
        }
    }
    false
}

/// Applies the link-acceptance rule to one href.
pub fn accept_link_x(href: &str, root_host: &str) -> (r: Option<String>)
    ensures
        match r {
            Option::Some(u) => accept_link(href@, root_host@) == Option::Some(u@),
            Option::None => accept_link(href@, root_host@) is None,
        },
{
    let hl = lower_str(href);
    if str_starts_with(href, "#") || str_starts_with(hl.as_str(), "mailto:") || str_starts_with(
        hl.as_str(),
        "javascript:",
    ) || str_starts_with(hl.as_str(), "tel:") {
        return Option::None;
    }
    match parse_url(href) {
        Option::None => Option::None,
        Option::Some(u) => {
            let sch = lower_str(u.scheme.as_str());
            let host_l = lower_str(u.host.as_str());
            if (str_eq(sch.as_str(), "http") || str_eq(sch.as_str(), "https")) && str_eq(
                host_l.as_str(),
                root_host,
            ) {
                Option::Some(render_normalized(&u))
            } else {
                Option::None
            }
        },
    }
}

} // verus!
