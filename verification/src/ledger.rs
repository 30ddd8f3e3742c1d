//! The progress ledger: named learning tracks, keyword scoring of a
//! cycle's learned items, mastery and status refresh, and the derived
//! smartness score.
//!
//! Scoring is a case-insensitive substring count: an item counts for a
//! track when any of the track's fixed keywords occurs in the item's
//! lower-cased topic, title and summary. Advanced language tracks stay
//! queued until every prerequisite track is mastered.

use vstd::prelude::*;

use crate::text::{has_sub, lower_str, str_contains, str_eq, to_lower};

verus! {

/// One learned item of a cycle report, as scored by the ledger.
pub struct TrainingLearnedItem {
    pub node_id: String,
    pub title: String,
    pub summary: String,
    pub source_url: String,
    pub topic: String,
    pub source_type: String,
}

impl TrainingLearnedItem {
    /// A copy equal to this item.
    pub fn duplicate(&self) -> (r: TrainingLearnedItem)
        ensures
            r == *self,
    {
        TrainingLearnedItem {
            node_id: self.node_id.clone(),
            title: self.title.clone(),
            summary: self.summary.clone(),
            source_url: self.source_url.clone(),
            topic: self.topic.clone(),
            source_type: self.source_type.clone(),
        }
    }
}

/// A named curriculum with a progress threshold.
pub struct LearningTrack {
    pub name: String,
    /// `queued`, `active` or `mastered`.
    pub status: String,
    pub progress_percent: u8,
    pub mastered: bool,
    pub nodes_written: u64,
    pub threshold: u64,
    pub current_goal: String,
    pub last_learned_at: Option<String>,
}

impl LearningTrack {
    /// A copy equal to this track.
    pub fn duplicate(&self) -> (r: LearningTrack)
        ensures
            r == *self,
    {
        LearningTrack {
            name: self.name.clone(),
            status: self.status.clone(),
            progress_percent: self.progress_percent,
            mastered: self.mastered,
            nodes_written: self.nodes_written,
            threshold: self.threshold,
            current_goal: self.current_goal.clone(),
            last_learned_at: match &self.last_learned_at {
                Option::Some(s) => Option::Some(s.clone()),
                Option::None => Option::None,
            },
        }
    }
}

/// A fresh active track at zero progress.
pub fn build_track(name: &str, threshold: u64, goal: &str) -> (r: LearningTrack)
    ensures
        r.name@ == name@,
        r.status@ == "active"@,
        r.progress_percent == 0,
        !r.mastered,
        r.nodes_written == 0,
        r.threshold == threshold,
        r.current_goal@ == goal@,
        r.last_learned_at is None,
{
    LearningTrack {
        name: name.to_owned(),
        status: "active".to_owned(),
        progress_percent: 0,
        mastered: false,
        nodes_written: 0,
        threshold,
        current_goal: goal.to_owned(),
        last_learned_at: Option::None,
    }
}

/// A fresh queued track, used for the advanced curricula.
pub fn build_queued_track(name: &str, threshold: u64, goal: &str) -> (r: LearningTrack)
    ensures
        r.name@ == name@,
        r.status@ == "queued"@,
        r.progress_percent == 0,
        !r.mastered,
        r.nodes_written == 0,
        r.threshold == threshold,
        r.current_goal@ == goal@,
        r.last_learned_at is None,
{
    LearningTrack {
        name: name.to_owned(),
        status: "queued".to_owned(),
        progress_percent: 0,
        mastered: false,
        nodes_written: 0,
        threshold,
        current_goal: goal.to_owned(),
        last_learned_at: Option::None,
    }
}

/// The names of the seven default tracks, in order.
pub open spec fn default_track_names() -> Seq<Seq<char>> {
    seq![
        "conversation skills"@,
        "rust programming"@,
        "python programming"@,
        "data compression and storage efficiency"@,
        "go programming"@,
        "javascript and typescript"@,
        "c and c++"@,
    ]
}

/// The default thresholds of the seven tracks, in the same order.
pub open spec fn default_track_thresholds() -> Seq<u64> {
    seq![80u64, 60u64, 60u64, 50u64, 40u64, 40u64, 40u64]
}

/// The default goals of the seven tracks, in the same order.
pub open spec fn default_track_goals() -> Seq<Seq<char>> {
    seq![
        "learn clarifying questions, structured replies, and tone adaptation"@,
        "master ownership, concurrency, and production-grade Rust patterns"@,
        "master Python tooling, data workflows, and async application patterns"@,
        "learn how to store more information in less space with compression and indexing"@,
        "unlock after Rust and Python mastery, then learn idiomatic Go systems design"@,
        "unlock after Rust and Python mastery, then learn full-stack JS/TS architecture"@,
        "unlock after Rust and Python mastery, then learn low-level optimization"@,
    ]
}

/// The seven seeded tracks, field for field: the default name, threshold
/// and goal at each position, zero progress, no mastery, no learning
/// stamp, the first four active and the advanced three queued.
pub open spec fn tracks_are_defaults(tracks: Seq<LearningTrack>) -> bool {
    &&& tracks.len() == 7
    &&& (forall|i: int| 0 <= i < 7 ==> (#[trigger] tracks[i]).name@ == default_track_names()[i])
    &&& (forall|i: int|
        0 <= i < 7 ==> (#[trigger] tracks[i]).threshold == default_track_thresholds()[i])
    &&& (forall|i: int|
        0 <= i < 7 ==> (#[trigger] tracks[i]).current_goal@ == default_track_goals()[i])
    &&& (forall|i: int|
        0 <= i < 7 ==> (#[trigger] tracks[i]).nodes_written == 0 && !tracks[i].mastered
            && tracks[i].progress_percent == 0 && tracks[i].last_learned_at is None)
    &&& (forall|i: int| 0 <= i < 4 ==> (#[trigger] tracks[i]).status@ == "active"@)
    &&& (forall|i: int| 4 <= i < 7 ==> (#[trigger] tracks[i]).status@ == "queued"@)
}

/// The seeded curriculum: four active tracks, and the three advanced
/// language tracks queued behind the Rust and Python prerequisites.
pub fn default_training_tracks() -> (r: Vec<LearningTrack>)
    ensures
        tracks_are_defaults(r@),
{
    let mut v: Vec<LearningTrack> = Vec::new();
    v.push(
        build_track(
            "conversation skills",
            80,
            "learn clarifying questions, structured replies, and tone adaptation",
        ),
    );
    v.push(
        build_track(
            "rust programming",
            60,
            "master ownership, concurrency, and production-grade Rust patterns",
        ),
    );
    v.push(
        build_track(
            "python programming",
            60,
            "master Python tooling, data workflows, and async application patterns",
        ),
    );
    v.push(
        build_track(
            "data compression and storage efficiency",
            50,
            "learn how to store more information in less space with compression and indexing",
        ),
    );
    v.push(
        build_queued_track(
            "go programming",
            40,
            "unlock after Rust and Python mastery, then learn idiomatic Go systems design",
        ),
    );
    v.push(
        build_queued_track(
            "javascript and typescript",
            40,
            "unlock after Rust and Python mastery, then learn full-stack JS/TS architecture",
        ),
    );
    v.push(
        build_queued_track(
            "c and c++",
            40,
            "unlock after Rust and Python mastery, then learn low-level optimization",
        ),
    );
    v
}

/// The fixed keyword set of a track; empty for an unknown track name.
pub open spec fn spec_track_keywords(name: Seq<char>) -> Seq<Seq<char>> {
    if name == "conversation skills"@ {
        seq![
            "conversation"@,
            "dialogue"@,
            "communication"@,
            "listening"@,
            "clarifying"@,
            "question"@,
            "language model prompting"@,
            "interaction design"@,
        ]
    } else if name == "rust programming"@ {
        seq![
            "rust"@,
            "cargo"@,
            "borrow checker"@,
            "ownership"@,
            "lifetime"@,
            "actix"@,
            "tokio"@,
            "serde"@,
            "sqlx"@,
        ]
    } else if name == "python programming"@ {
        seq![
            "python"@,
            "pandas"@,
            "numpy"@,
            "fastapi"@,
            "asyncio"@,
            "flask"@,
            "django"@,
            "pytest"@,
        ]
    } else if name == "data compression and storage efficiency"@ {
        seq![
            "compression"@,
            "storage"@,
            "dedup"@,
            "columnar"@,
            "parquet"@,
            "zstd"@,
            "lz4"@,
            "dictionary encoding"@,
            "delta encoding"@,
            "data structure"@,
        ]
    } else if name == "go programming"@ {
        seq!["go language"@, "golang"@, "goroutine"@, "go programming"@]
    } else if name == "javascript and typescript"@ {
        seq!["javascript"@, "typescript"@, "node.js"@, "nodejs"@, "react"@, "frontend"@]
    } else if name == "c and c++"@ {
        seq!["c programming"@, "c++"@, "memory management"@, "low-level"@, "pointer"@]
    } else {
        Seq::empty()
    }
}

/// The keyword set of a track.
pub fn track_keywords(name: &str) -> (r: Vec<String>)
    ensures
        r.deep_view() == spec_track_keywords(name@),
{
    let mut v: Vec<String> = Vec::new();
    if str_eq(name, "conversation skills") {
        v.push("conversation".to_owned());
        v.push("dialogue".to_owned());
        v.push("communication".to_owned());
        v.push("listening".to_owned());
        v.push("clarifying".to_owned());
        v.push("question".to_owned());
        v.push("language model prompting".to_owned());
        v.push("interaction design".to_owned());
    } else if str_eq(name, "rust programming") {
        v.push("rust".to_owned());
        v.push("cargo".to_owned());
        v.push("borrow checker".to_owned());
        v.push("ownership".to_owned());
        v.push("lifetime".to_owned());
        v.push("actix".to_owned());
        v.push("tokio".to_owned());
        v.push("serde".to_owned());
        v.push("sqlx".to_owned());
    } else if str_eq(name, "python programming") {
        v.push("python".to_owned());
        v.push("pandas".to_owned());
        v.push("numpy".to_owned());
        v.push("fastapi".to_owned());
        v.push("asyncio".to_owned());
        v.push("flask".to_owned());
        v.push("django".to_owned());
        v.push("pytest".to_owned());
    } else if str_eq(name, "data compression and storage efficiency") {
        v.push("compression".to_owned());
        v.push("storage".to_owned());
        v.push("dedup".to_owned());
        v.push("columnar".to_owned());
        v.push("parquet".to_owned());
        v.push("zstd".to_owned());
        v.push("lz4".to_owned());
        v.push("dictionary encoding".to_owned());
        v.push("delta encoding".to_owned());
        v.push("data structure".to_owned());
    } else if str_eq(name, "go programming") {
        v.push("go language".to_owned());
        v.push("golang".to_owned());
        v.push("goroutine".to_owned());
        v.push("go programming".to_owned());
    } else if str_eq(name, "javascript and typescript") {
        v.push("javascript".to_owned());
        v.push("typescript".to_owned());
        v.push("node.js".to_owned());
        v.push("nodejs".to_owned());
        v.push("react".to_owned());
        v.push("frontend".to_owned());
    } else if str_eq(name, "c and c++") {
        v.push("c programming".to_owned());
        v.push("c++".to_owned());
        v.push("memory management".to_owned());
        v.push("low-level".to_owned());
        v.push("pointer".to_owned());
    }
    proof {
        assert(v.deep_view() =~~= spec_track_keywords(name@));
    }
    v
}

/// The lower-cased scoring corpus of an item: topic, title and summary
/// joined by single spaces.
pub open spec fn item_corpus(item: TrainingLearnedItem) -> Seq<char> {
    to_lower(item.topic@) + " "@ + to_lower(item.title@) + " "@ + to_lower(item.summary@)
}

/// How many of the first `k` keywords occur in the corpus.
pub open spec fn count_hits(corpus: Seq<char>, kws: Seq<Seq<char>>, k: int) -> int
    decreases k,
{
    if k <= 0 {
        0
    } else {
        count_hits(corpus, kws, k - 1) + if has_sub(corpus, kws[k - 1]) {
            1int
        } else {
            0int
        }
    }
}

/// Any of the track's keywords occurs in the item's corpus; never for a
/// track with no keyword set.
pub open spec fn spec_item_hits_track(name: Seq<char>, item: TrainingLearnedItem) -> bool {
    count_hits(item_corpus(item), spec_track_keywords(name), spec_track_keywords(name).len() as int)
        > 0
}

/// The per-item score of one learned item against one track: one when any
/// of the track's keywords occurs in the item's corpus, else zero. An
/// item counts at most once however many keywords it contains.
pub open spec fn spec_track_hit_score(name: Seq<char>, item: TrainingLearnedItem) -> int {
    if spec_item_hits_track(name, item) {
        1
    } else {
        0
    }
}

/// Counts the keywords never more than once each.
pub proof fn lemma_count_hits_bound(corpus: Seq<char>, kws: Seq<Seq<char>>, k: int)
    ensures
        0 <= count_hits(corpus, kws, k) <= if k >= 0 {
            k
        } else {
            0
        },
    decreases k,
{
    if k > 0 {
        lemma_count_hits_bound(corpus, kws, k - 1);
    }
}

/// The per-item score of one learned item against one track: one when any
/// of the track's keywords occurs as a substring of the item's
/// lower-cased topic, title and summary, else zero.
pub fn track_hit_score(track_name: &str, item: &TrainingLearnedItem) -> (r: u64)
    ensures
        r == spec_track_hit_score(track_name@, *item),
        r <= 1,
{
    let t_low = lower_str(item.topic.as_str());
    let ti_low = lower_str(item.title.as_str());
    let s_low = lower_str(item.summary.as_str());
    let mut corpus = t_low;
    corpus.append(" ");
    corpus.append(ti_low.as_str());
    corpus.append(" ");
    corpus.append(s_low.as_str());
    let kws = track_keywords(track_name);
    let mut score: u64 = 0;
    let mut k: usize = 0;
    proof {
        lemma_count_hits_bound(corpus@, kws.deep_view(), kws.deep_view().len() as int);
    }
    while k < kws.len()
        invariant
            k <= kws.deep_view().len(),
            kws.deep_view() == spec_track_keywords(track_name@),
            corpus@ == item_corpus(*item),
            score == count_hits(corpus@, kws.deep_view(), k as int),
            score <= k,
        decreases kws.deep_view().len() - k,
    {
        proof {
            assert(kws.deep_view()[k as int] == kws@[k as int]@);
        }
        if str_contains(corpus.as_str(), kws[k].as_str()) {
            score = score + 1;
        }
        k = k + 1;
    }
    if score > 0 {
        1
    } else {
        0
    }
}

/// Whether the item's corpus contains the lower-cased focus topic; an
/// empty focus never matches.
pub open spec fn spec_matches_focus(focus: Seq<char>, item: TrainingLearnedItem) -> bool {
    to_lower(focus).len() > 0 && has_sub(item_corpus(item), to_lower(focus))
}

/// Whether a learned item bears on the configured focus topic.
pub fn matches_focus_topic(focus_topic: &str, item: &TrainingLearnedItem) -> (r: bool)
    ensures
        r == spec_matches_focus(focus_topic@, *item),
{
    let f_low = lower_str(focus_topic);
    if f_low.as_str().unicode_len() == 0 {
        return false;
    }
    let t_low = lower_str(item.topic.as_str());
    let ti_low = lower_str(item.title.as_str());
    let s_low = lower_str(item.summary.as_str());
    let mut corpus = t_low;
    corpus.append(" ");
    corpus.append(ti_low.as_str());
    corpus.append(" ");
    corpus.append(s_low.as_str());
    str_contains(corpus.as_str(), f_low.as_str())
}

/// How many of the first `k` items contain any of the track's keywords;
/// each matching item counts exactly once.
pub open spec fn count_matching_items(
    items: Seq<TrainingLearnedItem>,
    name: Seq<char>,
    k: int,
) -> int
    decreases k,
{
    if k <= 0 {
        0
    } else {
        count_matching_items(items, name, k - 1) + if spec_item_hits_track(name, items[k - 1]) {
            1int
        } else {
            0int
        }
    }
}

/// Never more matching items than items.
pub proof fn lemma_count_matching_bound(items: Seq<TrainingLearnedItem>, name: Seq<char>, k: int)
    ensures
        0 <= count_matching_items(items, name, k) <= if k >= 0 {
            k
        } else {
            0
        },
    decreases k,
{
    if k > 0 {
        lemma_count_matching_bound(items, name, k - 1);
    }
}

/// Scores one cycle's learned items against one track: the number of items
/// whose corpus contains any of the track's keywords. Each matching item
/// counts exactly once.
pub fn score_cycle_track(items: &Vec<TrainingLearnedItem>, track_name: &str) -> (r: u64)
    ensures
        r == count_matching_items(items@, track_name@, items@.len() as int),
        r <= items@.len(),
{
    let mut count: u64 = 0;
    let mut k: usize = 0;
    while k < items.len()
        invariant
            k <= items@.len(),
            count == count_matching_items(items@, track_name@, k as int),
            count <= k,
        decreases items@.len() - k,
    {
        let s = track_hit_score(track_name, &items[k]);
        if s > 0 {
            count = count + 1;
        }
        k = k + 1;
    }
    count
}

/// The advanced language tracks, held back behind the prerequisites.
pub open spec fn is_advanced_track(name: Seq<char>) -> bool {
    name == "go programming"@ || name == "javascript and typescript"@ || name == "c and c++"@
}

/// Index of the first track with the given name at or after `i`, or -1.
pub open spec fn find_track(tracks: Seq<LearningTrack>, name: Seq<char>, i: int) -> int
    decreases tracks.len() - i,
{
    if i < 0 || i >= tracks.len() {
        -1
    } else if tracks[i].name@ == name {
        i
    } else {
        find_track(tracks, name, i + 1)
    }
}

/// A track's threshold, floored at one.
pub open spec fn eff_threshold(t: LearningTrack) -> int {
    if t.threshold >= 1 {
        t.threshold as int
    } else {
        1
    }
}

/// Refreshed mastery: the written-node count has reached the threshold.
pub open spec fn refreshed_mastered(t: LearningTrack) -> bool {
    t.nodes_written >= eff_threshold(t)
}

/// The first track under the name has mastered its threshold, measured on
/// the written-node counts as they stand; a missing track never counts.
pub open spec fn prereq_met(tracks: Seq<LearningTrack>, name: Seq<char>) -> bool {
    let i = find_track(tracks, name, 0);
    i >= 0 && refreshed_mastered(tracks[i])
}

/// Every prerequisite track has crossed its threshold. Measured on the
/// counts, not on stale flags, so the hold on the advanced tracks lifts
/// in the very refresh in which the last prerequisite crosses.
pub open spec fn prereqs_mastered(tracks: Seq<LearningTrack>) -> bool {
    prereq_met(tracks, "rust programming"@) && prereq_met(tracks, "python programming"@)
}

/// Refreshed progress: written nodes over threshold, as a percentage
/// capped at 100.
pub open spec fn refreshed_pct(t: LearningTrack) -> int {
    if t.nodes_written >= eff_threshold(t) {
        100
    } else {
        (t.nodes_written * 100) / eff_threshold(t)
    }
}

/// Refreshed status: an advanced track is queued whenever any
/// prerequisite's written-node count is still below its threshold,
/// regardless of the track's own progress; otherwise its own mastery
/// decides between mastered and active.
pub open spec fn refreshed_status(tracks0: Seq<LearningTrack>, t: LearningTrack) -> Seq<char> {
    if is_advanced_track(t.name@) && !prereqs_mastered(tracks0) {
        "queued"@
    } else if refreshed_mastered(t) {
        "mastered"@
    } else {
        "active"@
    }
}

/// Refreshed goal: a held-back advanced track shows the waiting message, any
/// other track keeps its goal.
pub open spec fn refreshed_goal(tracks0: Seq<LearningTrack>, t: LearningTrack) -> Seq<char> {
    if is_advanced_track(t.name@) && !prereqs_mastered(tracks0) {
        "waiting for Rust and Python mastery unlock"@
    } else {
        t.current_goal@
    }
}

/// Track gating: an advanced track's status remains queued, with the
/// waiting goal, while any prerequisite track's written-node count is
/// below its threshold — its own progress notwithstanding; in the very
/// refresh in which the last prerequisite crosses, it becomes active, or
/// mastered once past its own threshold.
pub proof fn lemma_track_gating(tracks0: Seq<LearningTrack>, t: LearningTrack)
    requires
        is_advanced_track(t.name@),
    ensures
        !prereqs_mastered(tracks0) ==> refreshed_status(tracks0, t) == "queued"@
            && refreshed_goal(tracks0, t) == "waiting for Rust and Python mastery unlock"@,
        prereqs_mastered(tracks0) && !refreshed_mastered(t) ==> refreshed_status(tracks0, t)
            == "active"@,
        prereqs_mastered(tracks0) && refreshed_mastered(t) ==> refreshed_status(tracks0, t)
            == "mastered"@,
{
}

/// Whether the first track under the name has crossed its threshold.
pub fn track_threshold_met(tracks: &Vec<LearningTrack>, name: &str) -> (r: bool)
    ensures
        r == prereq_met(tracks@, name@),
{
    let mut i: usize = 0;
    while i < tracks.len()
        invariant
            i <= tracks@.len(),
            find_track(tracks@, name@, 0) == find_track(tracks@, name@, i as int),
        decreases tracks@.len() - i,
    {
        if str_eq(tracks[i].name.as_str(), name) {
            let th_eff: u64 = if tracks[i].threshold >= 1 {
                tracks[i].threshold
            } else {
                1
            };
            return tracks[i].nodes_written >= th_eff;
        }
        i = i + 1;
    }
    false
}

/// Recomputes every track's progress percentage, mastery flag, status and
/// goal, per the refreshed_* functions; names, thresholds, node counts and
/// timestamps are untouched. The prerequisite hold is measured on the
/// written-node counts, so crossing prerequisites unlock the advanced
/// tracks within this same refresh.
pub fn refresh_track_statuses(tracks: &mut Vec<LearningTrack>)
    ensures
        final(tracks)@.len() == old(tracks)@.len(),
        forall|i: int|
            0 <= i < old(tracks)@.len() ==> {
                let t0 = old(tracks)@[i];
                let t1 = #[trigger] final(tracks)@[i];
                &&& t1.name@ == t0.name@
                &&& t1.threshold == t0.threshold
                &&& t1.nodes_written == t0.nodes_written
                &&& t1.last_learned_at == t0.last_learned_at
                &&& t1.progress_percent == refreshed_pct(t0)
                &&& t1.mastered == refreshed_mastered(t0)
                &&& t1.status@ == refreshed_status(old(tracks)@, t0)
                &&& t1.current_goal@ == refreshed_goal(old(tracks)@, t0)
            },
{
    let prereqs = track_threshold_met(tracks, "rust programming") && track_threshold_met(
        tracks,
        "python programming",
    );
    let ghost tracks0 = tracks@;
    let mut out: Vec<LearningTrack> = Vec::new();
    let mut i: usize = 0;
    while i < tracks.len()
        invariant
            i <= tracks@.len(),
            tracks@ == tracks0,
            prereqs == prereqs_mastered(tracks0),
            out@.len() == i,
            forall|j: int|
                0 <= j < i ==> {
                    let t0 = tracks0[j];
                    let t1 = #[trigger] out@[j];
                    &&& t1.name@ == t0.name@
                    &&& t1.threshold == t0.threshold
                    &&& t1.nodes_written == t0.nodes_written
                    &&& t1.last_learned_at == t0.last_learned_at
                    &&& t1.progress_percent == refreshed_pct(t0)
                    &&& t1.mastered == refreshed_mastered(t0)
                    &&& t1.status@ == refreshed_status(tracks0, t0)
                    &&& t1.current_goal@ == refreshed_goal(tracks0, t0)
                },
        decreases tracks@.len() - i,
    {
        let t = &tracks[i];
        let th_eff: u64 = if t.threshold >= 1 {
            t.threshold
        } else {
            1
        };
        let mastered = t.nodes_written >= th_eff;
        let pct: u8 = if mastered {
            100
        } else {
            let p: u128 = ((t.nodes_written as u128) * 100) / (th_eff as u128);
            proof {
                assert((t.nodes_written as int) * 100 < 100 * (th_eff as int)) by (nonlinear_arith)
                    requires
                        (t.nodes_written as int) < (th_eff as int),
                ;
                assert(((t.nodes_written as int) * 100) / (th_eff as int) < 100) by (
                nonlinear_arith)
                    requires
                        (t.nodes_written as int) * 100 < 100 * (th_eff as int),
                        (th_eff as int) >= 1,
                ;
            }
            p as u8
        };
        let advanced = str_eq(t.name.as_str(), "go programming") || str_eq(
            t.name.as_str(),
            "javascript and typescript",
        ) || str_eq(t.name.as_str(), "c and c++");
        let (status, goal): (String, String) = if advanced && !prereqs {
            ("queued".to_owned(), "waiting for Rust and Python mastery unlock".to_owned())
        } else if mastered {
            ("mastered".to_owned(), t.current_goal.clone())
        } else {
            ("active".to_owned(), t.current_goal.clone())
        };
        out.push(
            LearningTrack {
                name: t.name.clone(),
                status,
                progress_percent: pct,
                mastered,
                nodes_written: t.nodes_written,
                threshold: t.threshold,
                current_goal: goal,
                last_learned_at: match &t.last_learned_at {
                    Option::Some(s) => Option::Some(s.clone()),
                    Option::None => Option::None,
                },
            },
        );
        i = i + 1;
    }
    *tracks = out;
}

/// How many of the first `k` tracks are mastered.
pub open spec fn count_mastered(tracks: Seq<LearningTrack>, k: int) -> int
    decreases k,
{
    if k <= 0 {
        0
    } else {
        count_mastered(tracks, k - 1) + if tracks[k - 1].mastered {
            1int
        } else {
            0int
        }
    }
}

/// Never more mastered tracks than tracks.
pub proof fn lemma_count_mastered_bound(tracks: Seq<LearningTrack>, k: int)
    ensures
        0 <= count_mastered(tracks, k) <= if k >= 0 {
            k
        } else {
            0
        },
    decreases k,
{
    if k > 0 {
        lemma_count_mastered_bound(tracks, k - 1);
    }
}

/// The smartness score in whole points: the weighted sum
/// 0.45 per node written, 0.25 per topic processed, 0.20 per website
/// scraped and 25 per mastered track, computed in hundredths and rounded
/// half up.
pub open spec fn spec_smartness(nodes: int, topics: int, sites: int, mastered: int) -> int {
    (45 * nodes + 25 * topics + 20 * sites + 2500 * mastered + 50) / 100
}

/// The derived smartness score, saturating at the integer ceiling.
pub fn smartness_score(
    total_nodes: u64,
    total_topics: u64,
    total_sites: u64,
    tracks: &Vec<LearningTrack>,
) -> (r: u64)
    ensures
        ({
            let s = spec_smartness(
                total_nodes as int,
                total_topics as int,
                total_sites as int,
                count_mastered(tracks@, tracks@.len() as int),
            );
            r == if s > u64::MAX {
                u64::MAX as int
            } else {
                s
            }
        }),
{
    let mut mastered: u64 = 0;
    let mut i: usize = 0;
    proof {
        lemma_count_mastered_bound(tracks@, tracks@.len() as int);
    }
    while i < tracks.len()
        invariant
            i <= tracks@.len(),
            mastered == count_mastered(tracks@, i as int),
            mastered <= i,
        decreases tracks@.len() - i,
    {
        if tracks[i].mastered {
            mastered = mastered + 1;
        }
        i = i + 1;
    }
    let sum: u128 = 45u128 * (total_nodes as u128) + 25u128 * (total_topics as u128) + 20u128 * (
    total_sites as u128) + 2500u128 * (mastered as u128) + 50u128;
    let scaled: u128 = sum / 100;
    if scaled > u64::MAX as u128 {
        u64::MAX
    } else {
        scaled as u64
    }
}

} // verus!
