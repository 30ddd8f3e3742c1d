//! Ledger scoring, track gating, cycle decisions and state folding.

use jeebs_core::cycle::{
    clamp_crawl_depth, clamp_interval_secs, clamp_site_count, jeebs_curiosity_topics, merge_topics,
    pick_backfill_site, random_crawl_candidates, select_random_sites, CycleAction, CycleProgress,
    MAX_CYCLE_SECS, MIN_CYCLE_SECS,
};
use jeebs_core::ledger::{
    build_track, default_training_tracks, matches_focus_topic, refresh_track_statuses,
    score_cycle_track, smartness_score, track_hit_score, LearningTrack, TrainingLearnedItem,
};
use jeebs_core::crawl::{CrawlSummary, NodePreview};
use jeebs_core::research::ExternalLearningDoc;
use jeebs_core::state::{
    apply_training_report, curriculum_topics_from_state, report_to_snapshot, training_state_default,
    TrainingCycleReport,
};

fn item(title: &str) -> TrainingLearnedItem {
    TrainingLearnedItem {
        node_id: String::from("n"),
        title: String::from(title),
        summary: String::new(),
        source_url: String::new(),
        topic: String::from("study"),
        source_type: String::from("crawl"),
    }
}

fn empty_report() -> TrainingCycleReport {
    TrainingCycleReport {
        cycle_started_at: String::from("t0"),
        cycle_finished_at: String::from("t1"),
        duration_ms: 100,
        topics: Vec::new(),
        nodes_written: 0,
        errors: Vec::new(),
        websites_scraped: Vec::new(),
        learned_items: Vec::new(),
        crawl_pages_visited: 0,
        crawl_pages_stored: 0,
        crawl_links_followed: 0,
        crawl_nodes_written: 0,
        wikipedia_docs_written: 0,
        text_chars_learned: 0,
        focus_topic: None,
        focus_topic_nodes_written: 0,
    }
}

#[test]
fn scoring_counts_matching_items_once_each() {
    let items = vec![
        item("Rust ownership basics"),
        item("Cargo workspaces"),
        item("Borrow checker deep dive"),
    ];
    assert_eq!(score_cycle_track(&items, "rust programming"), 3);
    assert_eq!(score_cycle_track(&items, "python programming"), 0);
    assert_eq!(score_cycle_track(&items, "go programming"), 0);
    // an item full of keywords still adds one, not one per keyword
    let dense = vec![item("rust cargo ownership lifetime")];
    assert_eq!(score_cycle_track(&dense, "rust programming"), 1);
}

#[test]
fn hit_score_flags_an_item_at_most_once() {
    // several keywords occur, yet the item scores exactly one
    let it = item("Rust ownership and the borrow checker");
    assert_eq!(track_hit_score("rust programming", &it), 1);
    assert_eq!(track_hit_score("python programming", &it), 0);
    assert_eq!(track_hit_score("unknown track", &it), 0);
}

#[test]
fn end_to_end_scoring_updates_only_the_matching_track() {
    let mut state = training_state_default("t0");
    let mut report = empty_report();
    report.learned_items = vec![
        item("Rust ownership basics"),
        item("Cargo workspaces"),
        item("Borrow checker deep dive"),
    ];
    let rust_before = state.learning_tracks[1].nodes_written;
    let conv_before = state.learning_tracks[0].nodes_written;
    apply_training_report(&mut state, &report, "tester");
    assert_eq!(state.learning_tracks[1].name, "rust programming");
    assert_eq!(state.learning_tracks[1].nodes_written, rust_before + 3);
    assert_eq!(state.learning_tracks[0].nodes_written, conv_before);
    assert_eq!(state.learning_tracks[2].nodes_written, 0);
}

#[test]
fn advanced_tracks_stay_queued_until_prerequisites_master() {
    // queued wins over the advanced track's own progress
    let mut tracks = default_training_tracks();
    tracks[4].nodes_written = 100; // go programming has plenty written
    refresh_track_statuses(&mut tracks);
    assert_eq!(tracks[4].status, "queued");
    assert!(tracks[4].mastered);
    assert_eq!(tracks[4].progress_percent, 100);
    assert_eq!(
        tracks[4].current_goal,
        "waiting for Rust and Python mastery unlock"
    );

    let mut tracks = default_training_tracks();
    refresh_track_statuses(&mut tracks);
    assert_eq!(tracks[4].status, "queued");
    assert_eq!(tracks[5].status, "queued");
    assert_eq!(tracks[6].status, "queued");
    assert_eq!(
        tracks[4].current_goal,
        "waiting for Rust and Python mastery unlock"
    );

    // one prerequisite past its threshold is not enough
    tracks[1].nodes_written = 60;
    refresh_track_statuses(&mut tracks);
    assert_eq!(tracks[4].status, "queued");

    // the refresh in which the last prerequisite crosses unlocks at once
    tracks[2].nodes_written = 60;
    tracks[5].nodes_written = 40;
    refresh_track_statuses(&mut tracks);
    assert_eq!(tracks[1].status, "mastered");
    assert_eq!(tracks[2].status, "mastered");
    assert_eq!(tracks[4].status, "active");
    assert_eq!(tracks[5].status, "mastered");
}

#[test]
fn progress_percent_caps_at_hundred() {
    let mut tracks = vec![build_track("rust programming", 60, "goal")];
    tracks[0].nodes_written = 30;
    refresh_track_statuses(&mut tracks);
    assert_eq!(tracks[0].progress_percent, 50);
    assert!(!tracks[0].mastered);
    tracks[0].nodes_written = 120;
    refresh_track_statuses(&mut tracks);
    assert_eq!(tracks[0].progress_percent, 100);
    assert!(tracks[0].mastered);
}

#[test]
fn smartness_score_is_the_rounded_weighted_sum() {
    let tracks: Vec<LearningTrack> = Vec::new();
    // 0.45*2 + 0.25*2 + 0.2*5 = 2.4, rounded to 2
    assert_eq!(smartness_score(2, 2, 5, &tracks), 2);
    // one mastered track adds 25
    let mut t = vec![build_track("rust programming", 1, "g")];
    t[0].mastered = true;
    assert_eq!(smartness_score(2, 2, 5, &t), 27);
    // half rounds up: 0.45*10 = 4.5
    assert_eq!(smartness_score(10, 0, 0, &tracks), 5);
}

#[test]
fn duration_ceiling_stops_new_work() {
    let p = CycleProgress {
        sites: vec![String::from("http://example.com")],
        next_site: 0,
        topics: vec![String::from("topic")],
        next_topic: 0,
        error_count: 0,
        backfill_available: true,
        depth: 1,
    };
    assert!(matches!(
        p.next_action(MAX_CYCLE_SECS),
        CycleAction::Finalize
    ));
    assert!(matches!(p.next_action(400), CycleAction::Finalize));
    assert!(matches!(
        p.next_action(MAX_CYCLE_SECS - 1),
        CycleAction::CrawlSite { .. }
    ));
}

#[test]
fn duration_floor_keeps_crawling() {
    let done = CycleProgress {
        sites: Vec::new(),
        next_site: 0,
        topics: Vec::new(),
        next_topic: 0,
        error_count: 0,
        backfill_available: true,
        depth: 1,
    };
    assert!(matches!(
        done.next_action(MIN_CYCLE_SECS - 1),
        CycleAction::BackfillCrawl
    ));
    assert!(matches!(
        done.next_action(MIN_CYCLE_SECS),
        CycleAction::Finalize
    ));
    let with_error = CycleProgress {
        error_count: 1,
        ..CycleProgress {
            sites: Vec::new(),
            next_site: 0,
            topics: Vec::new(),
            next_topic: 0,
            error_count: 0,
            backfill_available: true,
            depth: 1,
        }
    };
    assert!(matches!(with_error.next_action(10), CycleAction::Finalize));
    let no_candidates = CycleProgress {
        backfill_available: false,
        ..CycleProgress {
            sites: Vec::new(),
            next_site: 0,
            topics: Vec::new(),
            next_topic: 0,
            error_count: 0,
            backfill_available: true,
            depth: 1,
        }
    };
    assert!(matches!(no_candidates.next_action(10), CycleAction::Finalize));
}

#[test]
fn phases_run_sites_then_topics() {
    let p = CycleProgress {
        sites: vec![String::from("http://a.example")],
        next_site: 1,
        topics: vec![String::from("t1"), String::from("t2")],
        next_topic: 1,
        error_count: 0,
        backfill_available: true,
        depth: 2,
    };
    match p.next_action(10) {
        CycleAction::ResearchTopic { topic } => assert_eq!(topic, "t2"),
        _ => panic!("expected a research action"),
    }
}

#[test]
fn clamps_hold_their_ranges() {
    assert_eq!(clamp_interval_secs(None), 5);
    assert_eq!(clamp_interval_secs(Some(1)), 5);
    assert_eq!(clamp_interval_secs(Some(10_000)), 3600);
    assert_eq!(clamp_interval_secs(Some(60)), 60);
    assert_eq!(clamp_crawl_depth(None), 1);
    assert_eq!(clamp_crawl_depth(Some(9)), 3);
    assert_eq!(clamp_site_count(None), 2);
    assert_eq!(clamp_site_count(Some(0)), 1);
    assert_eq!(clamp_site_count(Some(50)), 5);
}

#[test]
fn topic_merge_caps_and_dedupes() {
    let mined = vec![String::from("rust programming"), String::from("compression")];
    let curios = jeebs_curiosity_topics();
    let merged = merge_topics(mined, &curios);
    assert_eq!(merged.len(), 7);
    assert_eq!(merged[0], "rust programming");
    assert_eq!(merged[2], "scientific method");

    let mined = vec![String::from("scientific method")];
    let merged = merge_topics(mined, &curios);
    assert_eq!(
        merged,
        vec![
            String::from("scientific method"),
            String::from("knowledge representation"),
            String::from("reasoning under uncertainty"),
            String::from("systems design"),
            String::from("human communication patterns"),
        ]
    );
}

#[test]
fn site_selection_draws_distinct_pool_entries() {
    let pool = random_crawl_candidates();
    let picked = select_random_sites(3);
    assert_eq!(picked.len(), 3);
    for s in &picked {
        assert!(pool.contains(s));
    }
    for i in 0..picked.len() {
        for j in (i + 1)..picked.len() {
            assert_ne!(picked[i], picked[j]);
        }
    }
    let all = select_random_sites(50);
    assert_eq!(all.len(), pool.len());
    let one = pick_backfill_site();
    assert!(pool.contains(&one));
}

#[test]
fn report_folding_updates_totals_and_ring() {
    let mut state = training_state_default("t0");
    let mut report = empty_report();
    report.topics = vec![String::from("a"), String::from("b")];
    report.nodes_written = 4;
    report.websites_scraped = vec![String::from("http://example.com")];
    report.crawl_pages_visited = 6;
    report.errors = vec![String::from("one error")];
    apply_training_report(&mut state, &report, "worker");
    assert_eq!(state.total_cycles, 1);
    assert_eq!(state.total_topics_processed, 2);
    assert_eq!(state.total_nodes_written, 4);
    assert_eq!(state.total_websites_scraped, 1);
    assert_eq!(state.total_crawl_pages_visited, 6);
    assert_eq!(state.last_error.as_deref(), Some("one error"));
    assert_eq!(state.recent_cycles.len(), 1);
    assert_eq!(state.recent_cycles[0].nodes_written, 4);
    assert!(!state.is_cycle_running);
    assert_eq!(state.active_phase, "idle");
    assert_eq!(state.updated_by, "worker");

    apply_training_report(&mut state, &report, "worker");
    assert_eq!(state.total_cycles, 2);
    assert_eq!(state.recent_cycles.len(), 2);
}

#[test]
fn snapshot_carries_report_fields() {
    let mut report = empty_report();
    report.learned_items = vec![item("One"), item("Two")];
    report.text_chars_learned = 42;
    let snap = report_to_snapshot(&report);
    assert_eq!(snap.learned_items_count, 2);
    assert_eq!(snap.text_chars_learned, 42);
    assert_eq!(snap.cycle_finished_at, "t1");
}

#[test]
fn curriculum_topics_list_active_tracks() {
    let state = training_state_default("t0");
    let topics = curriculum_topics_from_state(&state);
    assert_eq!(topics[0], "how to store more data in less space");
    assert!(topics.contains(&String::from("rust programming")));
    // queued advanced tracks are not studied
    assert!(!topics.contains(&String::from("go programming")));
    assert_eq!(topics.len(), 11);
}

#[test]
fn focus_topic_matches_in_corpus() {
    let it = item("Advanced Rust ownership");
    assert!(matches_focus_topic("rust", &it));
    assert!(matches_focus_topic("OWNERSHIP", &it));
    assert!(!matches_focus_topic("", &it));
    assert!(!matches_focus_topic("python", &it));
}

#[test]
fn recent_cycle_ring_is_bounded() {
    let mut state = training_state_default("t0");
    let report = empty_report();
    for _ in 0..35 {
        apply_training_report(&mut state, &report, "worker");
    }
    assert_eq!(state.recent_cycles.len(), 30);
    assert_eq!(state.total_cycles, 35);
}

#[test]
fn counters_saturate_instead_of_wrapping() {
    let mut state = training_state_default("t0");
    state.total_nodes_written = u64::MAX - 1;
    let mut report = empty_report();
    report.nodes_written = 10;
    apply_training_report(&mut state, &report, "worker");
    assert_eq!(state.total_nodes_written, u64::MAX);
}

#[test]
fn report_folding_records_crawls_and_research() {
    let preview = |n: usize| NodePreview {
        node_id: format!("id{}", n),
        label: format!("label {}", n),
        summary: String::from("sum"),
        source_url: format!("http://example.com/p{}", n),
    };
    let summary = CrawlSummary {
        start_url: String::from("http://example.com/"),
        max_depth: 1,
        pages_visited: 12,
        pages_stored: 10,
        links_followed: 20,
        stored_nodes: (0..10).map(preview).collect(),
    };

    let mut report = empty_report();
    report.record_site_crawl(&summary);
    assert_eq!(report.nodes_written, 10);
    assert_eq!(report.crawl_pages_visited, 12);
    assert_eq!(report.crawl_links_followed, 20);
    assert_eq!(report.websites_scraped, vec![String::from("http://example.com/")]);
    // only the first eight stored pages become learned items
    assert_eq!(report.learned_items.len(), 8);
    assert_eq!(report.learned_items[0].topic, "random_web_crawl");
    assert_eq!(report.learned_items[0].node_id, "id0");
    assert_eq!(report.text_chars_learned, 8 * 3);

    // a backfill of the same site neither duplicates the website nor
    // takes more than four previews
    report.record_backfill_crawl(&summary);
    assert_eq!(report.websites_scraped.len(), 1);
    assert_eq!(report.learned_items.len(), 12);
    assert_eq!(report.learned_items[8].topic, "extended_exploration");

    let doc = ExternalLearningDoc {
        title: String::from("Rust"),
        url: String::from("https://en.wikipedia.org/wiki/Rust"),
        summary: String::from("A language."),
        topic: String::from("rust programming"),
    };
    report.record_research_doc(&doc);
    assert_eq!(report.wikipedia_docs_written, 1);
    assert_eq!(report.nodes_written, 21);
    let last = report.learned_items.last().unwrap();
    assert_eq!(last.source_type, "wikipedia");
    assert!(last.node_id.starts_with("train:"));

    report.focus_topic = Some(String::from("rust"));
    report.finalize_learned();
    assert_eq!(report.learned_items.len(), 13);
    assert_eq!(report.focus_topic_nodes_written, 1);
}

#[test]
fn backfill_items_stop_at_the_accumulation_cap() {
    let preview = |n: usize| NodePreview {
        node_id: format!("id{}", n),
        label: String::from("l"),
        summary: String::from("s"),
        source_url: String::from("u"),
    };
    let summary = |start: &str| CrawlSummary {
        start_url: String::from(start),
        max_depth: 1,
        pages_visited: 4,
        pages_stored: 4,
        links_followed: 0,
        stored_nodes: (0..4).map(preview).collect(),
    };
    let mut report = empty_report();
    for i in 0..8 {
        report.record_backfill_crawl(&summary(&format!("http://s{}.example/", i)));
    }
    assert_eq!(report.learned_items.len(), 32);
    assert_eq!(report.websites_scraped.len(), 8);
    report.finalize_learned();
    assert_eq!(report.learned_items.len(), 24);
}
