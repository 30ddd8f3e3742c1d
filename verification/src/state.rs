//! The durable training state and the folding of one cycle's report into
//! it.
//!
//! The state is a single record owned by the orchestrator: cumulative
//! counters, the last cycle's outcomes, a bounded ring of recent cycle
//! snapshots, live `active_*` fields for external observability, the
//! learning tracks and the derived smartness score. Every mutation goes
//! through a whole-record replace by its single writer.

use vstd::prelude::*;

use crate::ledger::{
    count_matching_items, count_mastered, default_training_tracks, refresh_track_statuses,
    refreshed_goal, refreshed_mastered, refreshed_pct, refreshed_status, score_cycle_track,
    smartness_score, spec_smartness, tracks_are_defaults, LearningTrack, TrainingLearnedItem,
};
use crate::crawl::{CrawlSummary, NodePreview};
use crate::ledger::spec_matches_focus;
use crate::research::{research_node_id, spec_research_node_id, ExternalLearningDoc};
use crate::text::collapse_ws;

verus! {

/// Snapshots kept in the recent-cycle ring.
pub const MAX_RECENT_CYCLES: usize = 30;

/// Learned-item previews kept in a report.
pub const MAX_LEARNED_ITEMS: usize = 24;

/// `a + b` capped at the integer ceiling.
pub open spec fn sat64(x: int) -> int {
    if x > u64::MAX {
        u64::MAX as int
    } else {
        x
    }
}

/// Saturating addition on cumulative counters.
pub fn sat_add64(a: u64, b: u64) -> (r: u64)
    ensures
        r == sat64(a + b),
{
    if a > u64::MAX - b {
        u64::MAX
    } else {
        a + b
    }
}

/// Copies a vector of strings.
pub fn clone_strings(v: &Vec<String>) -> (r: Vec<String>)
    ensures
        r@ == v@,
{
    let mut out: Vec<String> = Vec::new();
    let mut i: usize = 0;
    while i < v.len()
        invariant
            i <= v@.len(),
            out@ == v@.subrange(0, i as int),
        decreases v@.len() - i,
    {
        out.push(v[i].clone());
        i = i + 1;
        proof {
            assert(out@ =~= v@.subrange(0, i as int));
        }
    }
    proof {
        assert(out@ =~= v@);
    }
    out
}

/// Copies a vector of learned items.
pub fn clone_items(v: &Vec<TrainingLearnedItem>) -> (r: Vec<TrainingLearnedItem>)
    ensures
        r@ == v@,
{
    let mut out: Vec<TrainingLearnedItem> = Vec::new();
    let mut i: usize = 0;
    while i < v.len()
        invariant
            i <= v@.len(),
            out@ == v@.subrange(0, i as int),
        decreases v@.len() - i,
    {
        out.push(v[i].duplicate());
        i = i + 1;
        proof {
            assert(out@ =~= v@.subrange(0, i as int));
        }
    }
    proof {
        assert(out@ =~= v@);
    }
    out
}

/// Copies an optional string.
pub fn clone_opt_string(v: &Option<String>) -> (r: Option<String>)
    ensures
        r == *v,
{
    match v {
        Option::Some(s) => Option::Some(s.clone()),
        Option::None => Option::None,
    }
}

/// The transient report accumulated over one training cycle.
pub struct TrainingCycleReport {
    pub cycle_started_at: String,
    pub cycle_finished_at: String,
    pub duration_ms: u64,
    pub topics: Vec<String>,
    pub nodes_written: u64,
    pub errors: Vec<String>,
    pub websites_scraped: Vec<String>,
    pub learned_items: Vec<TrainingLearnedItem>,
    pub crawl_pages_visited: u64,
    pub crawl_pages_stored: u64,
    pub crawl_links_followed: u64,
    pub crawl_nodes_written: u64,
    pub wikipedia_docs_written: u64,
    pub text_chars_learned: u64,
    pub focus_topic: Option<String>,
    pub focus_topic_nodes_written: u64,
}

/// The immutable record of one completed cycle, kept in the history ring.
pub struct TrainingCycleSnapshot {
    pub cycle_started_at: String,
    pub cycle_finished_at: String,
    pub duration_ms: u64,
    pub topics: Vec<String>,
    pub websites_scraped: Vec<String>,
    pub nodes_written: u64,
    pub crawl_pages_visited: u64,
    pub crawl_pages_stored: u64,
    pub crawl_links_followed: u64,
    pub crawl_nodes_written: u64,
    pub wikipedia_docs_written: u64,
    pub text_chars_learned: u64,
    pub focus_topic: Option<String>,
    pub focus_topic_nodes_written: u64,
    pub learned_items_count: u64,
    pub errors: Vec<String>,
}

/// The snapshot records exactly the report's outcome: every field carried
/// over, the learned items reduced to their count.
pub open spec fn snapshot_matches(s: TrainingCycleSnapshot, report: TrainingCycleReport) -> bool {
    &&& s.cycle_started_at@ == report.cycle_started_at@
    &&& s.cycle_finished_at@ == report.cycle_finished_at@
    &&& s.duration_ms == report.duration_ms
    &&& s.topics@ == report.topics@
    &&& s.websites_scraped@ == report.websites_scraped@
    &&& s.nodes_written == report.nodes_written
    &&& s.crawl_pages_visited == report.crawl_pages_visited
    &&& s.crawl_pages_stored == report.crawl_pages_stored
    &&& s.crawl_links_followed == report.crawl_links_followed
    &&& s.crawl_nodes_written == report.crawl_nodes_written
    &&& s.wikipedia_docs_written == report.wikipedia_docs_written
    &&& s.text_chars_learned == report.text_chars_learned
    &&& s.focus_topic == report.focus_topic
    &&& s.focus_topic_nodes_written == report.focus_topic_nodes_written
    &&& s.learned_items_count == report.learned_items@.len()
    &&& s.errors@ == report.errors@
}

/// Converts a finished report into its immutable snapshot, per
/// `snapshot_matches`.
pub fn report_to_snapshot(report: &TrainingCycleReport) -> (r: TrainingCycleSnapshot)
    ensures
        snapshot_matches(r, *report),
{
    let topics = clone_strings(&report.topics);
    let websites = clone_strings(&report.websites_scraped);
    let errors = clone_strings(&report.errors);
    proof {
        assert(topics@ =~= report.topics@);
        assert(websites@ =~= report.websites_scraped@);
        assert(errors@ =~= report.errors@);
    }
    TrainingCycleSnapshot {
        cycle_started_at: report.cycle_started_at.clone(),
        cycle_finished_at: report.cycle_finished_at.clone(),
        duration_ms: report.duration_ms,
        topics,
        websites_scraped: websites,
        nodes_written: report.nodes_written,
        crawl_pages_visited: report.crawl_pages_visited,
        crawl_pages_stored: report.crawl_pages_stored,
        crawl_links_followed: report.crawl_links_followed,
        crawl_nodes_written: report.crawl_nodes_written,
        wikipedia_docs_written: report.wikipedia_docs_written,
        text_chars_learned: report.text_chars_learned,
        focus_topic: clone_opt_string(&report.focus_topic),
        focus_topic_nodes_written: report.focus_topic_nodes_written,
        learned_items_count: report.learned_items.len() as u64,
        errors,
    }
}

/// The durable training state.
pub struct TrainingModeState {
    pub enabled: bool,
    pub updated_at: String,
    pub updated_by: String,
    pub last_cycle_at: Option<String>,
    pub total_cycles: u64,
    pub total_topics_processed: u64,
    pub total_nodes_written: u64,
    pub total_websites_scraped: u64,
    pub total_crawl_pages_visited: u64,
    pub total_crawl_pages_stored: u64,
    pub total_crawl_links_followed: u64,
    pub total_crawl_nodes_written: u64,
    pub total_wikipedia_docs_written: u64,
    pub last_topics: Vec<String>,
    pub last_error: Option<String>,
    pub last_websites: Vec<String>,
    pub last_learned_items: Vec<TrainingLearnedItem>,
    pub last_cycle_duration_ms: Option<u64>,
    pub last_cycle_nodes_written: u64,
    pub last_cycle_errors: Vec<String>,
    pub last_cycle_summary: Option<TrainingCycleSnapshot>,
    pub recent_cycles: Vec<TrainingCycleSnapshot>,
    pub is_cycle_running: bool,
    pub active_cycle_started_at: Option<String>,
    pub active_phase: String,
    pub active_target: Option<String>,
    pub active_nodes_written: u64,
    pub active_websites_completed: u64,
    pub active_topics_completed: u64,
    pub active_updated_at: Option<String>,
    pub focus_topic: Option<String>,
    /// The derived smartness score, in whole points.
    pub smartness_score: u64,
    pub total_text_chars_learned: u64,
    pub learning_tracks: Vec<LearningTrack>,
}

/// The phase name shown while no cycle runs.
pub fn default_active_phase() -> (r: String)
    ensures
        r@ == "idle"@,
{
    "idle".to_owned()
}

/// The seeded state: training enabled, all counters zero, no history, the
/// default tracks, and the idle phase.
pub fn training_state_default(now: &str) -> (r: TrainingModeState)
    ensures
        r.enabled,
        r.updated_at@ == now@,
        r.updated_by@ == "system"@,
        r.last_cycle_at is None,
        r.total_cycles == 0,
        r.total_topics_processed == 0,
        r.total_nodes_written == 0,
        r.total_websites_scraped == 0,
        r.total_crawl_pages_visited == 0,
        r.total_crawl_pages_stored == 0,
        r.total_crawl_links_followed == 0,
        r.total_crawl_nodes_written == 0,
        r.total_wikipedia_docs_written == 0,
        r.last_topics@.len() == 0,
        r.last_error is None,
        r.recent_cycles@.len() == 0,
        !r.is_cycle_running,
        r.active_phase@ == "idle"@,
        r.active_nodes_written == 0,
        r.focus_topic is None,
        r.smartness_score == 0,
        r.total_text_chars_learned == 0,
        tracks_are_defaults(r.learning_tracks@),
{
    TrainingModeState {
        enabled: true,
        updated_at: now.to_owned(),
        updated_by: "system".to_owned(),
        last_cycle_at: Option::None,
        total_cycles: 0,
        total_topics_processed: 0,
        total_nodes_written: 0,
        total_websites_scraped: 0,
        total_crawl_pages_visited: 0,
        total_crawl_pages_stored: 0,
        total_crawl_links_followed: 0,
        total_crawl_nodes_written: 0,
        total_wikipedia_docs_written: 0,
        last_topics: Vec::new(),
        last_error: Option::None,
        last_websites: Vec::new(),
        last_learned_items: Vec::new(),
        last_cycle_duration_ms: Option::None,
        last_cycle_nodes_written: 0,
        last_cycle_errors: Vec::new(),
        last_cycle_summary: Option::None,
        recent_cycles: Vec::new(),
        is_cycle_running: false,
        active_cycle_started_at: Option::None,
        active_phase: default_active_phase(),
        active_target: Option::None,
        active_nodes_written: 0,
        active_websites_completed: 0,
        active_topics_completed: 0,
        active_updated_at: Option::None,
        focus_topic: Option::None,
        smartness_score: 0,
        total_text_chars_learned: 0,
        learning_tracks: default_training_tracks(),
    }
}

/// The tracks after a cycle's items are scored against them: a track whose
/// matching-item count is positive gains that count (saturating) and takes
/// the cycle's finish stamp; every other field and track is unchanged.
pub open spec fn scored_tracks(
    base: Seq<LearningTrack>,
    items: Seq<TrainingLearnedItem>,
    stamp: String,
) -> Seq<LearningTrack> {
    Seq::new(
        base.len(),
        |i: int|
            {
                let c = count_matching_items(items, base[i].name@, items.len() as int);
                if c > 0 {
                    LearningTrack {
                        name: base[i].name,
                        status: base[i].status,
                        progress_percent: base[i].progress_percent,
                        mastered: base[i].mastered,
                        nodes_written: sat64(base[i].nodes_written + c) as u64,
                        threshold: base[i].threshold,
                        current_goal: base[i].current_goal,
                        last_learned_at: Option::Some(stamp),
                    }
                } else {
                    base[i]
                }
            },
    )
}

/// Folds one finished cycle into the durable state: bumps the cumulative
/// counters (saturating), replaces the last-cycle fields, scores and
/// refreshes the tracks, prepends the snapshot to the bounded history
/// ring, clears the live `active_*` fields and recomputes the smartness
/// score. An empty track list is reseeded with the defaults first.
pub fn apply_training_report(
    state: &mut TrainingModeState,
    report: &TrainingCycleReport,
    actor: &str,
)
    ensures
        ({
            let s0 = *old(state);
            let s1 = *final(state);
            &&& s1.enabled == s0.enabled
            &&& s1.focus_topic == s0.focus_topic
            &&& s1.last_cycle_at == Option::Some(report.cycle_finished_at)
            &&& s1.total_cycles == sat64(s0.total_cycles + 1)
            &&& s1.total_topics_processed == sat64(
                s0.total_topics_processed + report.topics@.len(),
            )
            &&& s1.total_nodes_written == sat64(s0.total_nodes_written + report.nodes_written)
            &&& s1.total_websites_scraped == sat64(
                s0.total_websites_scraped + report.websites_scraped@.len(),
            )
            &&& s1.total_crawl_pages_visited == sat64(
                s0.total_crawl_pages_visited + report.crawl_pages_visited,
            )
            &&& s1.total_crawl_pages_stored == sat64(
                s0.total_crawl_pages_stored + report.crawl_pages_stored,
            )
            &&& s1.total_crawl_links_followed == sat64(
                s0.total_crawl_links_followed + report.crawl_links_followed,
            )
            &&& s1.total_crawl_nodes_written == sat64(
                s0.total_crawl_nodes_written + report.crawl_nodes_written,
            )
            &&& s1.total_wikipedia_docs_written == sat64(
                s0.total_wikipedia_docs_written + report.wikipedia_docs_written,
            )
            &&& s1.total_text_chars_learned == sat64(
                s0.total_text_chars_learned + report.text_chars_learned,
            )
            &&& s1.last_topics@ == report.topics@
            &&& s1.last_websites@ == report.websites_scraped@
            &&& s1.last_learned_items@ == report.learned_items@
            &&& s1.last_error == (if report.errors@.len() > 0 {
                Option::Some(report.errors@[0])
            } else {
                Option::<String>::None
            })
            &&& s1.last_cycle_duration_ms == Option::Some(report.duration_ms)
            &&& s1.last_cycle_nodes_written == report.nodes_written
            &&& s1.last_cycle_errors@ == report.errors@
            &&& s1.last_cycle_summary is Some
            &&& snapshot_matches(s1.last_cycle_summary->Some_0, *report)
            &&& s1.recent_cycles@.len() == if s0.recent_cycles@.len() + 1 <= MAX_RECENT_CYCLES {
                s0.recent_cycles@.len() + 1 as int
            } else {
                MAX_RECENT_CYCLES as int
            }
            &&& snapshot_matches(s1.recent_cycles@[0], *report)
            &&& (forall|j: int|
                1 <= j < s1.recent_cycles@.len() ==> #[trigger] s1.recent_cycles@[j]
                    == s0.recent_cycles@[j - 1])
            &&& s1.updated_at == report.cycle_finished_at
            &&& s1.updated_by@ == actor@
            &&& !s1.is_cycle_running
            &&& s1.active_cycle_started_at is None
            &&& s1.active_phase@ == "idle"@
            &&& s1.active_target is None
            &&& s1.active_nodes_written == 0
            &&& s1.active_websites_completed == 0
            &&& s1.active_topics_completed == 0
            &&& s1.active_updated_at == Option::Some(report.cycle_finished_at)
            &&& s1.smartness_score == ({
                let s = spec_smartness(
                    s1.total_nodes_written as int,
                    s1.total_topics_processed as int,
                    s1.total_websites_scraped as int,
                    count_mastered(s1.learning_tracks@, s1.learning_tracks@.len() as int),
                );
                if s > u64::MAX {
                    u64::MAX as int
                } else {
                    s
                }
            })
        }),
        old(state).learning_tracks@.len() > 0 ==> {
            let scored = scored_tracks(
                old(state).learning_tracks@,
                report.learned_items@,
                report.cycle_finished_at,
            );
            &&& final(state).learning_tracks@.len() == scored.len()
            &&& (forall|i: int|
                0 <= i < scored.len() ==> {
                    let t0 = scored[i];
                    let t1 = #[trigger] final(state).learning_tracks@[i];
                    &&& t1.name@ == t0.name@
                    &&& t1.threshold == t0.threshold
                    &&& t1.nodes_written == t0.nodes_written
                    &&& t1.last_learned_at == t0.last_learned_at
                    &&& t1.progress_percent == refreshed_pct(t0)
                    &&& t1.mastered == refreshed_mastered(t0)
                    &&& t1.status@ == refreshed_status(scored, t0)
                    &&& t1.current_goal@ == refreshed_goal(scored, t0)
                })
        },
{
    if state.learning_tracks.len() == 0 {
        state.learning_tracks = default_training_tracks();
    }

    state.last_cycle_at = Option::Some(report.cycle_finished_at.clone());
    state.total_cycles = sat_add64(state.total_cycles, 1);
    state.total_topics_processed = sat_add64(
        state.total_topics_processed,
        report.topics.len() as u64,
    );
    state.total_nodes_written = sat_add64(state.total_nodes_written, report.nodes_written);
    state.total_websites_scraped = sat_add64(
        state.total_websites_scraped,
        report.websites_scraped.len() as u64,
    );
    state.total_crawl_pages_visited = sat_add64(
        state.total_crawl_pages_visited,
        report.crawl_pages_visited,
    );
    state.total_crawl_pages_stored = sat_add64(
        state.total_crawl_pages_stored,
        report.crawl_pages_stored,
    );
    state.total_crawl_links_followed = sat_add64(
        state.total_crawl_links_followed,
        report.crawl_links_followed,
    );
    state.total_crawl_nodes_written = sat_add64(
        state.total_crawl_nodes_written,
        report.crawl_nodes_written,
    );
    state.total_wikipedia_docs_written = sat_add64(
        state.total_wikipedia_docs_written,
        report.wikipedia_docs_written,
    );
    state.total_text_chars_learned = sat_add64(
        state.total_text_chars_learned,
        report.text_chars_learned,
    );

    state.last_topics = clone_strings(&report.topics);
    state.last_websites = clone_strings(&report.websites_scraped);
    state.last_learned_items = clone_items(&report.learned_items);
    state.last_error = if report.errors.len() > 0 {
        Option::Some(report.errors[0].clone())
    } else {
        Option::None
    };
    state.last_cycle_duration_ms = Option::Some(report.duration_ms);
    state.last_cycle_nodes_written = report.nodes_written;
    state.last_cycle_errors = clone_strings(&report.errors);
    proof {
        assert(state.last_topics@ =~= report.topics@);
        assert(state.last_websites@ =~= report.websites_scraped@);
        assert(state.last_learned_items@ =~= report.learned_items@);
        assert(state.last_cycle_errors@ =~= report.errors@);
    }

    let ghost base_tracks = state.learning_tracks@;
    let ghost scored = scored_tracks(base_tracks, report.learned_items@, report.cycle_finished_at);
    let mut updated: Vec<LearningTrack> = Vec::new();
    let mut i: usize = 0;
    while i < state.learning_tracks.len()
        invariant
            i <= state.learning_tracks@.len(),
            state.learning_tracks@ == base_tracks,
            scored == scored_tracks(base_tracks, report.learned_items@, report.cycle_finished_at),
            updated@.len() == i,
            forall|j: int| 0 <= j < i ==> #[trigger] updated@[j] == scored[j],
        decreases state.learning_tracks@.len() - i,
    {
        let t = &state.learning_tracks[i];
        let inc = score_cycle_track(&report.learned_items, t.name.as_str());
        let mut nt = t.duplicate();
        if inc > 0 {
            nt.nodes_written = sat_add64(nt.nodes_written, inc);
            nt.last_learned_at = Option::Some(report.cycle_finished_at.clone());
        }
        updated.push(nt);
        i = i + 1;
    }
    proof {
        assert(updated@ =~= scored);
    }
    state.learning_tracks = updated;
    refresh_track_statuses(&mut state.learning_tracks);

    state.last_cycle_summary = Option::Some(report_to_snapshot(report));
    let snapshot = report_to_snapshot(report);
    let ghost old_ring = state.recent_cycles@;
    let mut rest: Vec<TrainingCycleSnapshot> = Vec::new();
    core::mem::swap(&mut rest, &mut state.recent_cycles);
    let mut ring: Vec<TrainingCycleSnapshot> = Vec::new();
    ring.push(snapshot);
    while rest.len() > 0 && ring.len() < MAX_RECENT_CYCLES
        invariant
            ring@.len() + rest@.len() >= 1,
            ring@.len() >= 1,
            ring@.len() <= MAX_RECENT_CYCLES,
            old_ring == ring@.skip(1) + rest@,
            snapshot_matches(ring@[0], *report),
        decreases rest@.len(),
    {
        let s = rest.remove(0);
        ring.push(s);
        proof {
            assert(old_ring =~= ring@.skip(1) + rest@);
        }
    }
    proof {
        assert(forall|k: int| 1 <= k < ring@.len() ==> #[trigger] ring@[k] == ring@.skip(1)[k - 1]);
    }
    state.recent_cycles = ring;

    state.updated_at = report.cycle_finished_at.clone();
    state.updated_by = actor.to_owned();
    state.is_cycle_running = false;
    state.active_cycle_started_at = Option::None;
    state.active_phase = default_active_phase();
    state.active_target = Option::None;
    state.active_nodes_written = 0;
    state.active_websites_completed = 0;
    state.active_topics_completed = 0;
    state.active_updated_at = Option::Some(report.cycle_finished_at.clone());
    state.smartness_score = smartness_score(
        state.total_nodes_written,
        state.total_topics_processed,
        state.total_websites_scraped,
        &state.learning_tracks,
    );
}

/// A focus-topic input, cleaned: whitespace collapsed and truncated to
/// 160 characters; nothing when it collapses to empty.
pub fn normalize_training_topic_input(input: &str) -> (r: Option<String>)
    ensures
        ({
            let c = collapse_ws(input@);
            match r {
                Option::Some(s) => c.len() > 0 && s@ == crate::text::truncated(c, 160),
                Option::None => c.len() == 0,
            }
        }),
{
    let compact = crate::text::normalize_whitespace(input);
    if compact.as_str().unicode_len() == 0 {
        return Option::None;
    }
    Option::Some(crate::text::truncate_chars(compact.as_str(), 160))
}

/// The base candidate topics every cycle studies.
pub open spec fn base_curriculum() -> Seq<Seq<char>> {
    seq![
        "how to store more data in less space"@,
        "lossless compression techniques"@,
        "conversation skills for ai assistants"@,
    ]
}

/// The candidate topics drawn from the first `k` tracks: each active,
/// unmastered track contributes its name, and its goal when the goal is
/// not blank.
pub open spec fn curriculum_candidates(tracks: Seq<LearningTrack>, k: int) -> Seq<Seq<char>>
    decreases k,
{
    if k <= 0 {
        base_curriculum()
    } else {
        let acc = curriculum_candidates(tracks, k - 1);
        let t = tracks[k - 1];
        if t.status@ == "active"@ && !t.mastered {
            if collapse_ws(t.current_goal@).len() > 0 {
                acc.push(t.name@).push(t.current_goal@)
            } else {
                acc.push(t.name@)
            }
        } else {
            acc
        }
    }
}

/// Whether a case-insensitive duplicate of `x` is already in `acc`.
pub open spec fn contains_ci(acc: Seq<Seq<char>>, x: Seq<char>) -> bool {
    exists|i: int|
        0 <= i < acc.len() && crate::text::to_lower(#[trigger] acc[i]) == crate::text::to_lower(x)
}

/// `items` with later case-insensitive duplicates dropped, keeping first
/// occurrences in order.
pub open spec fn dedup_ci(items: Seq<Seq<char>>, k: int) -> Seq<Seq<char>>
    decreases k,
{
    if k <= 0 {
        Seq::empty()
    } else {
        let acc = dedup_ci(items, k - 1);
        if contains_ci(acc, items[k - 1]) {
            acc
        } else {
            acc.push(items[k - 1])
        }
    }
}

/// Whether the vector already holds a case-insensitive duplicate.
fn contains_ci_x(acc: &Vec<String>, x: &str) -> (r: bool)
    ensures
        r == contains_ci(acc.deep_view(), x@),
{
    let xl = crate::text::lower_str(x);
    let mut i: usize = 0;
    while i < acc.len()
        invariant
            i <= acc@.len(),
            xl@ == crate::text::to_lower(x@),
            forall|k: int|
                0 <= k < i ==> crate::text::to_lower(#[trigger] acc.deep_view()[k])
                    != crate::text::to_lower(x@),
        decreases acc@.len() - i,
    {
        let al = crate::text::lower_str(acc[i].as_str());
        if crate::text::str_eq(al.as_str(), xl.as_str()) {
            proof {
                assert(crate::text::to_lower(acc.deep_view()[i as int]) == crate::text::to_lower(
                    x@,
                ));
            }
            return true;
        }
        i = i + 1;
    }
    proof {
        if contains_ci(acc.deep_view(), x@) {
            let k = choose|k: int|
                0 <= k < acc.deep_view().len() && crate::text::to_lower(
                    #[trigger] acc.deep_view()[k],
                ) == crate::text::to_lower(x@);
            assert(false);
        }
    }
    false
}

/// The topics the curriculum proposes this cycle: three fixed themes, then
/// each active unmastered track's name and goal, de-duplicated
/// case-insensitively with first occurrences kept.
pub fn curriculum_topics_from_state(state: &TrainingModeState) -> (r: Vec<String>)
    ensures
        r.deep_view() == dedup_ci(
            curriculum_candidates(
                state.learning_tracks@,
                state.learning_tracks@.len() as int,
            ),
            curriculum_candidates(state.learning_tracks@, state.learning_tracks@.len() as int).len()
                as int,
        ),
{
    let mut cand: Vec<String> = Vec::new();
    cand.push("how to store more data in less space".to_owned());
    cand.push("lossless compression techniques".to_owned());
    cand.push("conversation skills for ai assistants".to_owned());
    proof {
        assert(cand.deep_view() =~~= curriculum_candidates(state.learning_tracks@, 0));
    }
    let mut i: usize = 0;
    while i < state.learning_tracks.len()
        invariant
            i <= state.learning_tracks@.len(),
            cand.deep_view() == curriculum_candidates(state.learning_tracks@, i as int),
        decreases state.learning_tracks@.len() - i,
    {
        let t = &state.learning_tracks[i];
        if crate::text::str_eq(t.status.as_str(), "active") && !t.mastered {
            cand.push(t.name.clone());
            let goal_c = crate::text::normalize_whitespace(t.current_goal.as_str());
            if goal_c.as_str().unicode_len() > 0 {
                cand.push(t.current_goal.clone());
            }
        }
        i = i + 1;
        proof {
            assert(cand.deep_view() =~~= curriculum_candidates(state.learning_tracks@, i as int));
        }
    }
    let mut out: Vec<String> = Vec::new();
    let mut k: usize = 0;
    while k < cand.len()
        invariant
            k <= cand@.len(),
            cand.deep_view() == curriculum_candidates(
                state.learning_tracks@,
                state.learning_tracks@.len() as int,
            ),
            out.deep_view() == dedup_ci(cand.deep_view(), k as int),
        decreases cand@.len() - k,
    {
        if !contains_ci_x(&out, cand[k].as_str()) {
            out.push(cand[k].clone());
            proof {
                assert(out.deep_view() =~~= dedup_ci(cand.deep_view(), k + 1));
            }
        }
        k = k + 1;
    }
    out
}

/// Most learned-item previews recorded per planned site crawl.
pub const SITE_ITEM_PREVIEWS: usize = 8;

/// Most learned-item previews recorded per backfill crawl.
pub const BACKFILL_ITEM_PREVIEWS: usize = 4;

/// Hard cap on learned items accumulated while a cycle runs; finalization
/// trims further, to `MAX_LEARNED_ITEMS`.
pub const LEARNED_ITEMS_ACCUM_CAP: usize = 32;

/// The learned item recorded for one crawled page preview.
pub open spec fn crawl_item_matches(
    it: TrainingLearnedItem,
    p: NodePreview,
    topic: Seq<char>,
) -> bool {
    &&& it.node_id@ == p.node_id@
    &&& it.title@ == p.label@
    &&& it.summary@ == p.summary@
    &&& it.source_url@ == p.source_url@
    &&& it.topic@ == topic
    &&& it.source_type@ == "crawl"@
}

/// The learned-character counter after folding in the summaries of the
/// first `k` previews, saturating at each step.
pub open spec fn chars_folded(base: int, ps: Seq<NodePreview>, k: int) -> int
    decreases k,
{
    if k <= 0 {
        base
    } else {
        sat64(chars_folded(base, ps, k - 1) + ps[k - 1].summary@.len())
    }
}

/// How many of the first `k` items bear on the focus topic.
pub open spec fn count_focus_items(
    items: Seq<TrainingLearnedItem>,
    focus: Seq<char>,
    k: int,
) -> int
    decreases k,
{
    if k <= 0 {
        0
    } else {
        count_focus_items(items, focus, k - 1) + if spec_matches_focus(focus, items[k - 1]) {
            1int
        } else {
            0int
        }
    }
}

/// Never more focus items than items.
pub proof fn lemma_count_focus_bound(items: Seq<TrainingLearnedItem>, focus: Seq<char>, k: int)
    ensures
        0 <= count_focus_items(items, focus, k) <= if k >= 0 {
            k
        } else {
            0
        },
    decreases k,
{
    if k > 0 {
        lemma_count_focus_bound(items, focus, k - 1);
    }
}

impl TrainingCycleReport {
    /// A fresh cycle report: no work recorded, no errors, both stamps at
    /// the cycle's start (finalization replaces the finish stamp), and
    /// the configured focus topic carried in.
    pub fn begin(started_at: &str, focus_topic: Option<String>) -> (r: TrainingCycleReport)
        ensures
            r.cycle_started_at@ == started_at@,
            r.cycle_finished_at@ == started_at@,
            r.duration_ms == 0,
            r.topics@.len() == 0,
            r.nodes_written == 0,
            r.errors@.len() == 0,
            r.websites_scraped@.len() == 0,
            r.learned_items@.len() == 0,
            r.crawl_pages_visited == 0,
            r.crawl_pages_stored == 0,
            r.crawl_links_followed == 0,
            r.crawl_nodes_written == 0,
            r.wikipedia_docs_written == 0,
            r.text_chars_learned == 0,
            r.focus_topic == focus_topic,
            r.focus_topic_nodes_written == 0,
    {
        TrainingCycleReport {
            cycle_started_at: started_at.to_owned(),
            cycle_finished_at: started_at.to_owned(),
            duration_ms: 0,
            topics: Vec::new(),
            nodes_written: 0,
            errors: Vec::new(),
            websites_scraped: Vec::new(),
            learned_items: Vec::new(),
            crawl_pages_visited: 0,
            crawl_pages_stored: 0,
            crawl_links_followed: 0,
            crawl_nodes_written: 0,
            wikipedia_docs_written: 0,
            text_chars_learned: 0,
            focus_topic,
            focus_topic_nodes_written: 0,
        }
    }

    /// Records the pre-flight refusal of a cycle: when the internet is
    /// disabled, the one configuration error joins the report and the
    /// cycle finalizes with zero work, per the error-handling policy.
    pub fn mark_internet_disabled(&mut self)
        ensures
            final(self).errors@.len() == old(self).errors@.len() + 1,
            (forall|i: int|
                0 <= i < old(self).errors@.len() ==> #[trigger] final(self).errors@[i] == old(
                    self,
                ).errors@[i]),
            final(self).errors@.last()@ == "internet is disabled; enable it in admin first"@,
            final(self).topics == old(self).topics,
            final(self).websites_scraped == old(self).websites_scraped,
            final(self).learned_items == old(self).learned_items,
            final(self).nodes_written == old(self).nodes_written,
            final(self).crawl_pages_visited == old(self).crawl_pages_visited,
            final(self).crawl_pages_stored == old(self).crawl_pages_stored,
            final(self).crawl_links_followed == old(self).crawl_links_followed,
            final(self).crawl_nodes_written == old(self).crawl_nodes_written,
            final(self).wikipedia_docs_written == old(self).wikipedia_docs_written,
            final(self).text_chars_learned == old(self).text_chars_learned,
            final(self).cycle_started_at == old(self).cycle_started_at,
            final(self).cycle_finished_at == old(self).cycle_finished_at,
            final(self).duration_ms == old(self).duration_ms,
            final(self).focus_topic == old(self).focus_topic,
            final(self).focus_topic_nodes_written == old(self).focus_topic_nodes_written,
    {
        self.errors.push("internet is disabled; enable it in admin first".to_owned());
    }

    /// Folds one planned site crawl's outcome into the report: the start
    /// URL joins the scraped list, every counter grows by the summary's
    /// (saturating), and the first `SITE_ITEM_PREVIEWS` stored pages are
    /// recorded as learned items under the random-crawl topic, their
    /// summary lengths folded into the learned-character counter.
    pub fn record_site_crawl(&mut self, summary: &CrawlSummary)
        ensures
            ({
                let s0 = *old(self);
                let s1 = *final(self);
                let ps = summary.stored_nodes@;
                let n = if ps.len() <= SITE_ITEM_PREVIEWS {
                    ps.len() as int
                } else {
                    SITE_ITEM_PREVIEWS as int
                };
                &&& s1.nodes_written == sat64(s0.nodes_written + summary.pages_stored)
                &&& s1.crawl_pages_visited == sat64(s0.crawl_pages_visited
                    + summary.pages_visited)
                &&& s1.crawl_pages_stored == sat64(s0.crawl_pages_stored + summary.pages_stored)
                &&& s1.crawl_links_followed == sat64(s0.crawl_links_followed
                    + summary.links_followed)
                &&& s1.crawl_nodes_written == sat64(s0.crawl_nodes_written
                    + summary.pages_stored)
                &&& s1.text_chars_learned == chars_folded(s0.text_chars_learned as int, ps, n)
                &&& s1.websites_scraped@.len() == s0.websites_scraped@.len() + 1
                &&& (forall|i: int|
                    0 <= i < s0.websites_scraped@.len() ==> #[trigger] s1.websites_scraped@[i]
                        == s0.websites_scraped@[i])
                &&& s1.websites_scraped@.last()@ == summary.start_url@
                &&& s1.learned_items@.len() == s0.learned_items@.len() + n
                &&& (forall|i: int|
                    0 <= i < s0.learned_items@.len() ==> #[trigger] s1.learned_items@[i]
                        == s0.learned_items@[i])
                &&& (forall|j: int|
                    0 <= j < n ==> crawl_item_matches(
                        #[trigger] s1.learned_items@[s0.learned_items@.len() + j],
                        ps[j],
                        "random_web_crawl"@,
                    ))
                &&& s1.cycle_started_at == s0.cycle_started_at
                &&& s1.cycle_finished_at == s0.cycle_finished_at
                &&& s1.duration_ms == s0.duration_ms
                &&& s1.topics == s0.topics
                &&& s1.errors == s0.errors
                &&& s1.wikipedia_docs_written == s0.wikipedia_docs_written
                &&& s1.focus_topic == s0.focus_topic
                &&& s1.focus_topic_nodes_written == s0.focus_topic_nodes_written
            }),
    {
        self.nodes_written = sat_add64(self.nodes_written, summary.pages_stored as u64);
        self.crawl_pages_visited = sat_add64(
            self.crawl_pages_visited,
            summary.pages_visited as u64,
        );
        self.crawl_pages_stored = sat_add64(self.crawl_pages_stored, summary.pages_stored as u64);
        self.crawl_links_followed = sat_add64(
            self.crawl_links_followed,
            summary.links_followed as u64,
        );
        self.crawl_nodes_written = sat_add64(self.crawl_nodes_written, summary.pages_stored as u64);
        self.websites_scraped.push(summary.start_url.clone());
        let take: usize = if summary.stored_nodes.len() <= SITE_ITEM_PREVIEWS {
            summary.stored_nodes.len()
        } else {
            SITE_ITEM_PREVIEWS
        };
        let ghost items0 = self.learned_items@;
        let ghost mid = *self;
        let mut k: usize = 0;
        while k < take
            invariant
                k <= take,
                take == if summary.stored_nodes@.len() <= SITE_ITEM_PREVIEWS {
                    summary.stored_nodes@.len() as int
                } else {
                    SITE_ITEM_PREVIEWS as int
                },
                self.learned_items@.len() == items0.len() + k,
                forall|i: int|
                    0 <= i < items0.len() ==> #[trigger] self.learned_items@[i] == items0[i],
                forall|j: int|
                    0 <= j < k ==> crawl_item_matches(
                        #[trigger] self.learned_items@[items0.len() + j],
                        summary.stored_nodes@[j],
                        "random_web_crawl"@,
                    ),
                self.text_chars_learned == chars_folded(
                    mid.text_chars_learned as int,
                    summary.stored_nodes@,
                    k as int,
                ),
                self.nodes_written == mid.nodes_written,
                self.crawl_pages_visited == mid.crawl_pages_visited,
                self.crawl_pages_stored == mid.crawl_pages_stored,
                self.crawl_links_followed == mid.crawl_links_followed,
                self.crawl_nodes_written == mid.crawl_nodes_written,
                self.wikipedia_docs_written == mid.wikipedia_docs_written,
                self.websites_scraped == mid.websites_scraped,
                self.cycle_started_at == mid.cycle_started_at,
                self.cycle_finished_at == mid.cycle_finished_at,
                self.duration_ms == mid.duration_ms,
                self.topics == mid.topics,
                self.errors == mid.errors,
                self.focus_topic == mid.focus_topic,
                self.focus_topic_nodes_written == mid.focus_topic_nodes_written,
            decreases take - k,
        {
            let p = &summary.stored_nodes[k];
            self.text_chars_learned = sat_add64(
                self.text_chars_learned,
                p.summary.as_str().unicode_len() as u64,
            );
            self.learned_items.push(
                TrainingLearnedItem {
                    node_id: p.node_id.clone(),
                    title: p.label.clone(),
                    summary: p.summary.clone(),
                    source_url: p.source_url.clone(),
                    topic: "random_web_crawl".to_owned(),
                    source_type: "crawl".to_owned(),
                },
            );
            k = k + 1;
        }
    }

    /// Folds one backfill crawl's outcome in: as `record_site_crawl`, but
    /// the start URL joins the scraped list only when it is not already
    /// there, at most `BACKFILL_ITEM_PREVIEWS` pages are recorded, and no
    /// item is recorded past `LEARNED_ITEMS_ACCUM_CAP` accumulated items.
    pub fn record_backfill_crawl(&mut self, summary: &CrawlSummary)
        ensures
            ({
                let s0 = *old(self);
                let s1 = *final(self);
                let ps = summary.stored_nodes@;
                let cap = if s0.learned_items@.len() >= LEARNED_ITEMS_ACCUM_CAP {
                    0int
                } else {
                    LEARNED_ITEMS_ACCUM_CAP - s0.learned_items@.len()
                };
                let want = if ps.len() <= BACKFILL_ITEM_PREVIEWS {
                    ps.len() as int
                } else {
                    BACKFILL_ITEM_PREVIEWS as int
                };
                let n = if want <= cap {
                    want
                } else {
                    cap
                };
                &&& s1.nodes_written == sat64(s0.nodes_written + summary.pages_stored)
                &&& s1.crawl_pages_visited == sat64(s0.crawl_pages_visited
                    + summary.pages_visited)
                &&& s1.crawl_pages_stored == sat64(s0.crawl_pages_stored + summary.pages_stored)
                &&& s1.crawl_links_followed == sat64(s0.crawl_links_followed
                    + summary.links_followed)
                &&& s1.crawl_nodes_written == sat64(s0.crawl_nodes_written
                    + summary.pages_stored)
                &&& s1.text_chars_learned == chars_folded(s0.text_chars_learned as int, ps, n)
                &&& (s0.websites_scraped.deep_view().contains(summary.start_url@)
                    ==> s1.websites_scraped == s0.websites_scraped)
                &&& (!s0.websites_scraped.deep_view().contains(summary.start_url@) ==> {
                    &&& s1.websites_scraped@.len() == s0.websites_scraped@.len() + 1
                    &&& (forall|i: int|
                        0 <= i < s0.websites_scraped@.len() ==> #[trigger] s1.websites_scraped@[i]
                            == s0.websites_scraped@[i])
                    &&& s1.websites_scraped@.last()@ == summary.start_url@
                })
                &&& s1.learned_items@.len() == s0.learned_items@.len() + n
                &&& (forall|i: int|
                    0 <= i < s0.learned_items@.len() ==> #[trigger] s1.learned_items@[i]
                        == s0.learned_items@[i])
                &&& (forall|j: int|
                    0 <= j < n ==> crawl_item_matches(
                        #[trigger] s1.learned_items@[s0.learned_items@.len() + j],
                        ps[j],
                        "extended_exploration"@,
                    ))
                &&& s1.cycle_started_at == s0.cycle_started_at
                &&& s1.cycle_finished_at == s0.cycle_finished_at
                &&& s1.duration_ms == s0.duration_ms
                &&& s1.topics == s0.topics
                &&& s1.errors == s0.errors
                &&& s1.wikipedia_docs_written == s0.wikipedia_docs_written
                &&& s1.focus_topic == s0.focus_topic
                &&& s1.focus_topic_nodes_written == s0.focus_topic_nodes_written
            }),
    {
        self.nodes_written = sat_add64(self.nodes_written, summary.pages_stored as u64);
        self.crawl_pages_visited = sat_add64(
            self.crawl_pages_visited,
            summary.pages_visited as u64,
        );
        self.crawl_pages_stored = sat_add64(self.crawl_pages_stored, summary.pages_stored as u64);
        self.crawl_links_followed = sat_add64(
            self.crawl_links_followed,
            summary.links_followed as u64,
        );
        self.crawl_nodes_written = sat_add64(self.crawl_nodes_written, summary.pages_stored as u64);
        if !crate::crawl::contains_string(&self.websites_scraped, summary.start_url.as_str()) {
            self.websites_scraped.push(summary.start_url.clone());
        }
        let avail: usize = if self.learned_items.len() >= LEARNED_ITEMS_ACCUM_CAP {
            0
        } else {
            LEARNED_ITEMS_ACCUM_CAP - self.learned_items.len()
        };
        let want: usize = if summary.stored_nodes.len() <= BACKFILL_ITEM_PREVIEWS {
            summary.stored_nodes.len()
        } else {
            BACKFILL_ITEM_PREVIEWS
        };
        let take: usize = if want <= avail {
            want
        } else {
            avail
        };
        let ghost items0 = self.learned_items@;
        let ghost mid = *self;
        let mut k: usize = 0;
        while k < take
            invariant
                k <= take,
                take == ({
                    let cap = if items0.len() >= LEARNED_ITEMS_ACCUM_CAP {
                        0int
                    } else {
                        LEARNED_ITEMS_ACCUM_CAP - items0.len()
                    };
                    let want = if summary.stored_nodes@.len() <= BACKFILL_ITEM_PREVIEWS {
                        summary.stored_nodes@.len() as int
                    } else {
                        BACKFILL_ITEM_PREVIEWS as int
                    };
                    if want <= cap {
                        want
                    } else {
                        cap
                    }
                }),
                take <= summary.stored_nodes@.len(),
                self.learned_items@.len() == items0.len() + k,
                forall|i: int|
                    0 <= i < items0.len() ==> #[trigger] self.learned_items@[i] == items0[i],
                forall|j: int|
                    0 <= j < k ==> crawl_item_matches(
                        #[trigger] self.learned_items@[items0.len() + j],
                        summary.stored_nodes@[j],
                        "extended_exploration"@,
                    ),
                self.text_chars_learned == chars_folded(
                    mid.text_chars_learned as int,
                    summary.stored_nodes@,
                    k as int,
                ),
                self.nodes_written == mid.nodes_written,
                self.crawl_pages_visited == mid.crawl_pages_visited,
                self.crawl_pages_stored == mid.crawl_pages_stored,
                self.crawl_links_followed == mid.crawl_links_followed,
                self.crawl_nodes_written == mid.crawl_nodes_written,
                self.wikipedia_docs_written == mid.wikipedia_docs_written,
                self.websites_scraped == mid.websites_scraped,
                self.cycle_started_at == mid.cycle_started_at,
                self.cycle_finished_at == mid.cycle_finished_at,
                self.duration_ms == mid.duration_ms,
                self.topics == mid.topics,
                self.errors == mid.errors,
                self.focus_topic == mid.focus_topic,
                self.focus_topic_nodes_written == mid.focus_topic_nodes_written,
            decreases take - k,
        {
            let p = &summary.stored_nodes[k];
            self.text_chars_learned = sat_add64(
                self.text_chars_learned,
                p.summary.as_str().unicode_len() as u64,
            );
            self.learned_items.push(
                TrainingLearnedItem {
                    node_id: p.node_id.clone(),
                    title: p.label.clone(),
                    summary: p.summary.clone(),
                    source_url: p.source_url.clone(),
                    topic: "extended_exploration".to_owned(),
                    source_type: "crawl".to_owned(),
                },
            );
            k = k + 1;
        }
    }

    /// Folds one researched document in: the node and document counters
    /// grow by one, the summary's length joins the learned characters, and
    /// the document is recorded as a learned item under its topic.
    pub fn record_research_doc(&mut self, doc: &ExternalLearningDoc)
        ensures
            ({
                let s0 = *old(self);
                let s1 = *final(self);
                &&& s1.nodes_written == sat64(s0.nodes_written + 1)
                &&& s1.wikipedia_docs_written == sat64(s0.wikipedia_docs_written + 1)
                &&& s1.text_chars_learned == sat64(s0.text_chars_learned + doc.summary@.len())
                &&& s1.learned_items@.len() == s0.learned_items@.len() + 1
                &&& (forall|i: int|
                    0 <= i < s0.learned_items@.len() ==> #[trigger] s1.learned_items@[i]
                        == s0.learned_items@[i])
                &&& ({
                    let it = s1.learned_items@.last();
                    &&& it.node_id@ == spec_research_node_id(doc.url@)
                    &&& it.title@ == doc.title@
                    &&& it.summary@ == doc.summary@
                    &&& it.source_url@ == doc.url@
                    &&& it.topic@ == doc.topic@
                    &&& it.source_type@ == "wikipedia"@
                })
                &&& s1.crawl_pages_visited == s0.crawl_pages_visited
                &&& s1.crawl_pages_stored == s0.crawl_pages_stored
                &&& s1.crawl_links_followed == s0.crawl_links_followed
                &&& s1.crawl_nodes_written == s0.crawl_nodes_written
                &&& s1.websites_scraped == s0.websites_scraped
                &&& s1.cycle_started_at == s0.cycle_started_at
                &&& s1.cycle_finished_at == s0.cycle_finished_at
                &&& s1.duration_ms == s0.duration_ms
                &&& s1.topics == s0.topics
                &&& s1.errors == s0.errors
                &&& s1.focus_topic == s0.focus_topic
                &&& s1.focus_topic_nodes_written == s0.focus_topic_nodes_written
            }),
    {
        self.nodes_written = sat_add64(self.nodes_written, 1);
        self.wikipedia_docs_written = sat_add64(self.wikipedia_docs_written, 1);
        self.text_chars_learned = sat_add64(
            self.text_chars_learned,
            doc.summary.as_str().unicode_len() as u64,
        );
        self.learned_items.push(
            TrainingLearnedItem {
                node_id: research_node_id(doc.url.as_str()),
                title: doc.title.clone(),
                summary: doc.summary.clone(),
                source_url: doc.url.clone(),
                topic: doc.topic.clone(),
                source_type: "wikipedia".to_owned(),
            },
        );
    }

    /// Finalizes the learned items: the list is trimmed to
    /// `MAX_LEARNED_ITEMS`, and when a focus topic is set, the items
    /// bearing on it are counted into `focus_topic_nodes_written`.
    pub fn finalize_learned(&mut self)
        ensures
            ({
                let s0 = *old(self);
                let s1 = *final(self);
                &&& s1.learned_items@ == (if s0.learned_items@.len() <= MAX_LEARNED_ITEMS {
                    s0.learned_items@
                } else {
                    s0.learned_items@.subrange(0, MAX_LEARNED_ITEMS as int)
                })
                &&& (s0.focus_topic matches Option::Some(f) ==> s1.focus_topic_nodes_written
                    == count_focus_items(s1.learned_items@, f@, s1.learned_items@.len() as int))
                &&& (s0.focus_topic is None ==> s1.focus_topic_nodes_written
                    == s0.focus_topic_nodes_written)
                &&& s1.focus_topic == s0.focus_topic
                &&& s1.nodes_written == s0.nodes_written
                &&& s1.crawl_pages_visited == s0.crawl_pages_visited
                &&& s1.crawl_pages_stored == s0.crawl_pages_stored
                &&& s1.crawl_links_followed == s0.crawl_links_followed
                &&& s1.crawl_nodes_written == s0.crawl_nodes_written
                &&& s1.wikipedia_docs_written == s0.wikipedia_docs_written
                &&& s1.text_chars_learned == s0.text_chars_learned
                &&& s1.websites_scraped == s0.websites_scraped
                &&& s1.cycle_started_at == s0.cycle_started_at
                &&& s1.cycle_finished_at == s0.cycle_finished_at
                &&& s1.duration_ms == s0.duration_ms
                &&& s1.topics == s0.topics
                &&& s1.errors == s0.errors
            }),
    {
        if self.learned_items.len() > MAX_LEARNED_ITEMS {
            self.learned_items.truncate(MAX_LEARNED_ITEMS);
        }
        let focus = clone_opt_string(&self.focus_topic);
        match focus {
            Option::Some(f) => {
                let ghost items = self.learned_items@;
                let mut count: u64 = 0;
                let mut k: usize = 0;
                proof {
                    lemma_count_focus_bound(items, f@, items.len() as int);
                }
                while k < self.learned_items.len()
                    invariant
                        k <= self.learned_items@.len(),
                        self.learned_items@ == items,
                        count == count_focus_items(items, f@, k as int),
                        count <= k,
                        self.focus_topic == old(self).focus_topic,
                    decreases self.learned_items@.len() - k,
                {
                    if crate::ledger::matches_focus_topic(f.as_str(), &self.learned_items[k]) {
                        count = count + 1;
                    }
                    k = k + 1;
                }
                self.focus_topic_nodes_written = count;
            },
            Option::None => {},
        }
    }
}

} // verus!
