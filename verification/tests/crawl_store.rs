//! Crawler, URL normalization and knowledge-store behavior.

use jeebs_core::crawl::{accept_link_x, CrawlState, InputError, MAX_LINKS_PER_PAGE, MAX_PAGES};
use jeebs_core::store::{KnowledgeNode, KnowledgeStore, KnowledgeTriple};
use jeebs_core::url::normalize_url;

fn page_with_links(n: usize, host: &str) -> String {
    let mut html = String::from("<html><title>Hub</title><body>hub page");
    for i in 0..n {
        html.push_str(&format!("<a href=\"http://{}/p{}\">l</a>", host, i));
    }
    html.push_str("</body></html>");
    html
}

#[test]
fn normalization_canonicalizes_case_port_and_slash() {
    let a = normalize_url("HTTP://Example.com:80/a/").unwrap();
    let b = normalize_url("http://example.com/a").unwrap();
    assert_eq!(a, "http://example.com/a");
    assert_eq!(a, b);
}

#[test]
fn normalization_keeps_query_drops_fragment() {
    let a = normalize_url("https://Example.com:443/path/?q=1#frag").unwrap();
    assert_eq!(a, "https://example.com/path?q=1");
    let b = normalize_url("http://example.com").unwrap();
    assert_eq!(b, "http://example.com/");
    let c = normalize_url("http://example.com:8080/x").unwrap();
    assert_eq!(c, "http://example.com:8080/x");
}

#[test]
fn normalization_rejects_bad_input() {
    assert!(normalize_url("notaurl").is_none());
    assert!(normalize_url("ftp://example.com/x").is_none());
    assert!(normalize_url("http:///nohost").is_none());
}

#[test]
fn crawl_rejects_bad_depth_and_url() {
    assert_eq!(
        CrawlState::new("http://example.com", 0).err(),
        Some(InputError::InvalidDepth)
    );
    assert_eq!(
        CrawlState::new("http://example.com", 4).err(),
        Some(InputError::InvalidDepth)
    );
    assert_eq!(CrawlState::new("nope", 1).err(), Some(InputError::InvalidUrl));
    assert_eq!(
        CrawlState::new("ftp://example.com", 1).err(),
        Some(InputError::InvalidUrl)
    );
}

#[test]
fn fan_out_is_capped_per_page() {
    let mut st = CrawlState::new("http://example.com/", 1).unwrap();
    let (url, depth) = st.next_target().unwrap();
    assert_eq!(depth, 0);
    let html = page_with_links(500, "example.com");
    let _ = st.record_page(&url, depth, &html, "2024-01-01T00:00:00Z");
    let summary = st.summary();
    assert_eq!(summary.links_followed, MAX_LINKS_PER_PAGE);
    assert!(summary.links_followed <= 20);
}

#[test]
fn pages_visited_never_exceed_ceiling() {
    let mut st = CrawlState::new("http://example.com/", 3).unwrap();
    let mut fetched = 0usize;
    while let Some((url, depth)) = st.next_target() {
        // every page fans out to thirty more distinct same-host pages
        let html = page_with_links(30, "example.com");
        let _ = st.record_page(&url, depth, &html, "2024-01-01T00:00:00Z");
        fetched += 1;
        assert!(fetched <= MAX_PAGES);
    }
    let summary = st.summary();
    assert!(summary.pages_visited <= MAX_PAGES);
    assert_eq!(summary.pages_visited, MAX_PAGES);
}

#[test]
fn other_hosts_are_never_followed() {
    assert!(accept_link_x("http://other-domain.example/x", "example.com").is_none());
    assert!(accept_link_x("mailto:a@example.com", "example.com").is_none());
    assert!(accept_link_x("javascript:void(0)", "example.com").is_none());
    assert!(accept_link_x("#section", "example.com").is_none());
    assert_eq!(
        accept_link_x("http://example.com/ok/", "example.com").unwrap(),
        "http://example.com/ok"
    );

    let mut st = CrawlState::new("http://example.com/", 2).unwrap();
    let (url, depth) = st.next_target().unwrap();
    let html = "<html><body>\
        <a href=\"http://other-domain.example/x\">bad</a>\
        <a href=\"http://example.com/good\">good</a>\
        </body></html>";
    let _ = st.record_page(&url, depth, html, "2024-01-01T00:00:00Z");
    let mut seen = Vec::new();
    while let Some((u, _)) = st.next_target() {
        seen.push(u);
    }
    assert_eq!(seen, vec!["http://example.com/good".to_string()]);
}

#[test]
fn crawling_same_url_twice_gives_same_id_and_overwrites() {
    let now = "2024-01-01T00:00:00Z";
    let html = "<html><title>T</title><body>text</body></html>";

    let mut st1 = CrawlState::new("http://example.com/a", 1).unwrap();
    let (u1, d1) = st1.next_target().unwrap();
    let (n1, _) = st1.record_page(&u1, d1, html, now);

    let mut st2 = CrawlState::new("http://example.com/a", 1).unwrap();
    let (u2, d2) = st2.next_target().unwrap();
    let (n2, _) = st2.record_page(&u2, d2, html, now);

    assert_eq!(n1.id, n2.id);

    let mut store = KnowledgeStore::new();
    store.upsert_node(n1);
    assert_eq!(store.node_count(), 1);
    store.upsert_node(n2);
    assert_eq!(store.node_count(), 1);
}

#[test]
fn page_label_and_summary_rules() {
    let mut st = CrawlState::new("http://example.com/a", 1).unwrap();
    let (u, d) = st.next_target().unwrap();
    let html = "<html><title>  A   Title </title><body> some   body text </body></html>";
    let (node, triple) = st.record_page(&u, d, html, "t0");
    assert_eq!(node.label, "A Title");
    assert_eq!(node.summary, "some body text");
    assert_eq!(triple.predicate, "source_url");
    assert_eq!(triple.subject, "A Title");
    assert_eq!(triple.confidence_centi, 90);

    let mut st2 = CrawlState::new("http://example.com/b", 1).unwrap();
    let (u2, d2) = st2.next_target().unwrap();
    let (node2, _) = st2.record_page(&u2, d2, "<html></html>", "t0");
    assert_eq!(node2.label, "http://example.com/b");
    assert_eq!(node2.summary, "Crawled http://example.com/b");
}

#[test]
fn store_search_is_recent_first_and_bounded() {
    let mut store = KnowledgeStore::new();
    for i in 0..15 {
        store.upsert_node(KnowledgeNode {
            id: format!("id{}", i),
            label: format!("alpha {}", i),
            summary: String::from("s"),
            payload: String::new(),
            created_at: String::from("t"),
        });
    }
    let hits = store.search("alpha");
    assert_eq!(hits.len(), 10);
    assert_eq!(hits[0].id, "id14");
    assert_eq!(hits[9].id, "id5");

    let none = store.search("zulu");
    assert!(none.is_empty());

    // the empty query returns the most recent nodes
    let recent = store.search("");
    assert_eq!(recent.len(), 10);
    assert_eq!(recent[0].id, "id14");

    // case-insensitive match
    let ci = store.search("ALPHA 3");
    assert_eq!(ci.len(), 1);
    assert_eq!(ci[0].id, "id3");
}

#[test]
fn triple_upsert_latest_wins() {
    let mut store = KnowledgeStore::new();
    let t = |c: u64, at: &str| KnowledgeTriple {
        subject: String::from("s"),
        predicate: String::from("p"),
        object: String::from("o"),
        confidence_centi: c,
        created_at: String::from(at),
    };
    store.upsert_triple(t(90, "t1"));
    store.upsert_triple(t(82, "t2"));
    store.upsert_node(KnowledgeNode {
        id: String::from("x"),
        label: String::from("x"),
        summary: String::from("x"),
        payload: String::new(),
        created_at: String::from("t"),
    });
    // a different natural key is kept separately
    store.upsert_triple(KnowledgeTriple {
        subject: String::from("s2"),
        predicate: String::from("p"),
        object: String::from("o"),
        confidence_centi: 50,
        created_at: String::from("t3"),
    });
    assert_eq!(store.node_count(), 1);
}
